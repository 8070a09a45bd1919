//! Per-output side record: the tags currently viewed on that output.

use vstd::prelude::*;

use crate::tag::TagId;

verus! {

/// Stable identifier of an output.
pub type OutputId = u64;

/// Side record attached to an output. `focused_tags` is the ordered list of
/// tags currently viewed on the output; it is mutated by tag activation and
/// cleared wholesale on configuration reload.
#[derive(Clone, Debug, PartialEq)]
pub struct OutputState {
    pub focused_tags: Vec<TagId>,
}

impl Default for OutputState {
    /// A fresh output record views no tags.
    fn default() -> (r: OutputState)
        ensures
            r.focused_tags@ == Seq::<TagId>::empty(),
    {
        OutputState { focused_tags: Vec::new() }
    }
}

} // verus!
