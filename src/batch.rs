use vstd::prelude::*;
use crate::graph::HepMatchOrder;
use crate::rules::RuleImpl;

verus! {

/// How a batch runs: the order in which nodes are tried, and the most passes.
#[derive(Debug, Clone, Copy, PartialEq, Eq, Structural)]
pub struct HepBatchStrategy {
    /// The batch stops after this many passes even if the plan still changes.
    pub max_iteration: usize,
    pub match_order: HepMatchOrder,
}

impl HepBatchStrategy {
    /// One pass, parents before children.
    pub fn once_topdown() -> (r: Self)
        ensures
            r.max_iteration == 1,
            r.match_order == HepMatchOrder::TopDown,
    {
        HepBatchStrategy { max_iteration: 1, match_order: HepMatchOrder::TopDown }
    }

    /// Passes, parents before children, until nothing changes or `max_iteration` passes ran.
    pub fn fix_point_topdown(max_iteration: usize) -> (r: Self)
        ensures
            r.max_iteration == max_iteration,
            r.match_order == HepMatchOrder::TopDown,
    {
        HepBatchStrategy { max_iteration, match_order: HepMatchOrder::TopDown }
    }

    /// Passes, children before parents, until nothing changes or `max_iteration` passes ran.
    pub fn fix_point_bottomup(max_iteration: usize) -> (r: Self)
        ensures
            r.max_iteration == max_iteration,
            r.match_order == HepMatchOrder::BottomUp,
    {
        HepBatchStrategy { max_iteration, match_order: HepMatchOrder::BottomUp }
    }
}

/// A named group of rules that share a strategy.
#[derive(Debug)]
pub struct HepBatch {
    pub name: String,
    pub strategy: HepBatchStrategy,
    pub rules: Vec<RuleImpl>,
}

impl HepBatch {
    pub fn new(name: String, strategy: HepBatchStrategy, rules: Vec<RuleImpl>) -> (r: Self)
        ensures
            r.name == name,
            r.strategy == strategy,
            r.rules == rules,
    {
        HepBatch { name, strategy, rules }
    }
}

} // verus!
