//! The rules of the user's saved lists: saved queries and custom keywords.

use vstd::prelude::*;
use crate::text::views;

verus! {

/// Appends `item` to `list` unless an equal string is there already, and
/// says whether it was appended.
pub fn add_unique(list: &mut Vec<String>, item: String) -> (r: bool)
    ensures
        r == !views(old(list)@).contains(item@),
        r ==> final(list)@ == old(list)@.push(item),
        !r ==> final(list)@ == old(list)@,
{
    let n = list.len();
    let mut i: usize = 0;
    while i < n
        invariant
            n == list@.len(),
            i <= n,
            forall|k: int| 0 <= k < i ==> list@[k]@ != item@,
        decreases n - i,
    {
        if list[i] == item {
            assert(views(list@)[i as int] == item@);
            return false;
        }
        i = i + 1;
    }
    assert(!views(list@).contains(item@)) by {
        if views(list@).contains(item@) {
            let k = choose|k: int| 0 <= k < views(list@).len() && views(list@)[k] == item@;
            assert(list@[k]@ == item@);
        }
    }
    list.push(item);
    true
}

/// Appends a custom keyword unless it is empty or there already, and says
/// whether it was appended.
pub fn add_keyword(list: &mut Vec<String>, keyword: String) -> (r: bool)
    ensures
        r == (keyword@.len() > 0 && !views(old(list)@).contains(keyword@)),
        r ==> final(list)@ == old(list)@.push(keyword),
        !r ==> final(list)@ == old(list)@,
{
    if keyword.as_str().is_empty() {
        return false;
    }
    add_unique(list, keyword)
}

/// Removes and returns the entry at `index`, or leaves `list` as it is when
/// there is none.
pub fn remove_at(list: &mut Vec<String>, index: usize) -> (r: Option<String>)
    ensures
        index < old(list)@.len() ==> r == Some(old(list)@[index as int]) && final(list)@ == old(
            list,
        )@.remove(index as int),
        index >= old(list)@.len() ==> r is None && final(list)@ == old(list)@,
{
    if index < list.len() {
        Some(list.remove(index))
    } else {
        None
    }
}

} // verus!
