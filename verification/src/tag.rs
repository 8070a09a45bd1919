//! Tags: labels attached to windows and to outputs. A window is visible on an
//! output when it is floating or shares an active tag with that output. Only
//! the query surface of the tag-activation bookkeeping is used here, as plain
//! sets of tag ids.

use vstd::prelude::*;

verus! {

/// Stable identifier of a tag.
pub type TagId = u64;

/// Whether `ids` holds `x`.
pub fn contains_id(ids: &Vec<u64>, x: u64) -> (r: bool)
    ensures
        r == ids@.contains(x),
{
    let mut i: usize = 0;
    while i < ids.len()
        invariant
            i <= ids@.len(),
            forall|j: int| 0 <= j < i ==> ids@[j] != x,
        decreases ids@.len() - i,
    {
        if ids[i] == x {
            return true;
        }
        i = i + 1;
    }
    false
}

/// Whether some tag of `tags` is in `active`.
pub open spec fn spec_any_tag_active(tags: Seq<TagId>, active: Seq<TagId>) -> bool {
    exists|i: int| 0 <= i < tags.len() && active.contains(tags[i])
}

/// Whether any of a window's `tags` is among the `active` tags.
pub fn any_tag_active(tags: &Vec<TagId>, active: &Vec<TagId>) -> (r: bool)
    ensures
        r == spec_any_tag_active(tags@, active@),
{
    let mut i: usize = 0;
    while i < tags.len()
        invariant
            i <= tags@.len(),
            forall|j: int| 0 <= j < i ==> !active@.contains(tags@[j]),
        decreases tags@.len() - i,
    {
        if contains_id(active, tags[i]) {
            return true;
        }
        i = i + 1;
    }
    false
}

} // verus!
