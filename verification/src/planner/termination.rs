//! When a planner stops sampling.
use vstd::prelude::*;

verus! {

/// Stops a planner once its roadmap has grown to a given size.
pub struct BaseTerminationCriteria {
    pub max_size: usize,
}

impl BaseTerminationCriteria {
    /// The criterion that is met from `max_size` nodes on.
    pub fn new(max_size: usize) -> (criteria: Self)
        ensures
            criteria.max_size == max_size,
    {
        BaseTerminationCriteria { max_size }
    }

    /// Whether a roadmap of `node_count` nodes is large enough.
    pub fn is_met(&self, node_count: usize) -> (met: bool)
        ensures
            met == (node_count >= self.max_size),
    {
        node_count >= self.max_size
    }
}

} // verus!
