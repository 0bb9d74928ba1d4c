use vstd::prelude::*;
use crate::batch::HepBatch;
use crate::graph::{
    HepGraph, HepMatchOrder, HepNodeId, extends, lemma_order_below, order_at, packed, path_copied, refs_below,
    replaced, resolve, written,
};
use crate::matcher::HepMatcher;
use crate::opt_expr::OptTree;
use crate::plan_node::PlanRef;
use crate::rules::{RuleImpl, Substitute, lemma_rule_pattern};

verus! {

/// The node ids that a pass of a batch with this order tries, in turn.
pub open spec fn traversal(g: HepGraph, order: HepMatchOrder) -> Seq<HepNodeId> {
    order_at(g.nodes@, g.root as int, order == HepMatchOrder::TopDown)
}

/// No rule of `rules` proposes a rewrite at any node that a pass tries.
pub open spec fn no_rule_fires(g: HepGraph, rules: Seq<RuleImpl>, order: HepMatchOrder) -> bool {
    forall|k: int, i: int|
        0 <= k < rules.len() && 0 <= i < traversal(g, order).len() ==> !(#[trigger] rules[k]).fires(
            g.nodes@,
            #[trigger] traversal(g, order)[i] as int,
        )
}

/// No batch of `batches` has a rule that proposes a rewrite of `g`.
pub open spec fn no_batch_fires(g: HepGraph, batches: Seq<HepBatch>) -> bool {
    forall|b: int|
        0 <= b < batches.len() ==> no_rule_fires(
            g,
            (#[trigger] batches[b]).rules@,
            batches[b].strategy.match_order,
        )
}

/// `g1` is `g0` with the subtree at `id` rewritten to `cand`, a rewrite that
/// `rule` proposes there: the new nodes of `cand` get fresh ids and its graph
/// references keep theirs, each ancestor of `id` is copied under a fresh id,
/// and every subtree off that path keeps its id.
pub open spec fn rewrote_at(g0: HepGraph, g1: HepGraph, rule: RuleImpl, id: int, cand: OptTree) -> bool {
    &&& rule.fires(g0.nodes@, id)
    &&& rule.is_candidate(g0.nodes@, id, cand)
    &&& refs_below(cand, g0.nodes@.len())
    &&& g1.wf()
    &&& extends(g1.nodes@, g0.nodes@)
    &&& g1.plan_view() == replaced(g0.nodes@, g0.root as int, id, resolve(g0.nodes@, cand))
    &&& exists|sub_root: int|
        #[trigger] written(g1.nodes@, g0.nodes@, sub_root, cand) && path_copied(
            g1.nodes@,
            g0.nodes@,
            g1.root as int,
            g0.root as int,
            id,
            sub_root,
        )
}

/// One rule's turn in a pass: the graph is left as it is if the rule proposes a
/// rewrite at no node of the traversal; else the rewrite is made at the first
/// node of the traversal where it proposes one.
pub open spec fn rule_turn(g0: HepGraph, g1: HepGraph, rule: RuleImpl, order: HepMatchOrder) -> bool {
    let t = traversal(g0, order);
    if forall|i: int| 0 <= i < t.len() ==> !rule.fires(g0.nodes@, #[trigger] t[i] as int) {
        g1 == g0
    } else {
        exists|i: int, cand: OptTree|
            0 <= i < t.len() && #[trigger] rewrote_at(g0, g1, rule, t[i] as int, cand) && forall|j: int|
                0 <= j < i ==> !rule.fires(g0.nodes@, #[trigger] t[j] as int)
    }
}

/// `gs` are the graphs of a pass, one before each rule's turn and one after the last.
pub open spec fn batch_pass(gs: Seq<HepGraph>, rules: Seq<RuleImpl>, order: HepMatchOrder) -> bool {
    gs.len() == rules.len() + 1 && forall|k: int|
        0 <= k < rules.len() ==> rule_turn(#[trigger] gs[k], gs[k + 1], rules[k], order)
}

/// `g1` is what one pass of a batch with these rules makes of `g0`; a pass
/// in which no rule proposes a rewrite leaves the graph as it is.
pub open spec fn pass_step(g0: HepGraph, g1: HepGraph, rules: Seq<RuleImpl>, order: HepMatchOrder) -> bool {
    &&& exists|gs: Seq<HepGraph>| gs[0] == g0 && gs.last() == g1 && #[trigger] batch_pass(gs, rules, order)
    &&& no_rule_fires(g0, rules, order) ==> g1 == g0
}

/// `g1` is what `n` passes of `batch` make of `g0`: every pass but the last
/// changed the plan, and the last one either changed nothing or was the
/// batch's `max_iteration`-th. One pass runs where no rule applies.
pub open spec fn batch_run(g0: HepGraph, g1: HepGraph, batch: HepBatch, n: nat) -> bool {
    let rules = batch.rules@;
    let order = batch.strategy.match_order;
    &&& 1 <= n
    &&& n <= 1 || n <= batch.strategy.max_iteration
    &&& no_rule_fires(g0, rules, order) ==> n == 1 && g1 == g0
    &&& exists|gs: Seq<HepGraph>|
        gs.len() == n + 1 && gs[0] == g0 && gs.last() == g1 && (forall|p: int|
            0 <= p < n ==> #[trigger] pass_step(gs[p], gs[p + 1], rules, order)) && (forall|p: int|
            0 <= p < n - 1 ==> !no_rule_fires(#[trigger] gs[p], rules, order)) && (n
            < batch.strategy.max_iteration ==> no_rule_fires(gs[n - 1], rules, order))
}

/// `gs` are the graphs of a run of `batches`, one before each batch and one
/// after the last: each batch runs in turn, to a fixed point or its pass limit.
pub open spec fn batches_run(gs: Seq<HepGraph>, batches: Seq<HepBatch>) -> bool {
    gs.len() == batches.len() + 1 && forall|b: int|
        0 <= b < batches.len() ==> #[trigger] batch_ran(gs[b], gs[b + 1], batches[b])
}

/// `g1` is what some number of passes of `batch` make of `g0`, as `batch_run` says.
pub open spec fn batch_ran(g0: HepGraph, g1: HepGraph, batch: HepBatch) -> bool {
    exists|n: nat| #[trigger] batch_run(g0, g1, batch, n)
}

/// Rewrites a plan by batches of rules until each batch reaches a fixed point
/// or its pass limit.
pub struct HepOptimizer {
    pub batches: Vec<HepBatch>,
    pub graph: HepGraph,
}

impl HepOptimizer {
    pub fn new(batches: Vec<HepBatch>, root: PlanRef) -> (r: Self)
        ensures
            r.graph.wf(),
            r.graph.plan_view() == root@,
            r.batches == batches,
            packed(r.graph.nodes@, r.graph.root as int, 0),
            forall|top_down: bool|
                #[trigger] order_at(r.graph.nodes@, r.graph.root as int, top_down).len() == r.graph.nodes@.len()
                    && order_at(r.graph.nodes@, r.graph.root as int, top_down).no_duplicates(),
    {
        let graph = HepGraph::new(root);
        HepOptimizer { batches, graph }
    }

    /// Runs every batch in turn, then returns the plan that the graph holds.
    pub fn find_best(&mut self) -> (r: PlanRef)
        requires
            old(self).graph.wf(),
        ensures
            final(self).graph.wf(),
            r@ == final(self).graph.plan_view(),
            final(self).batches == old(self).batches,
            no_batch_fires(old(self).graph, old(self).batches@) ==> r@ == old(self).graph.plan_view(),
            exists|gs: Seq<HepGraph>|
                gs.len() == old(self).batches@.len() + 1 && gs[0] == old(self).graph && gs.last()
                    == final(self).graph && #[trigger] batches_run(gs, old(self).batches@),
    {
        let ghost mut gs: Seq<HepGraph> = seq![self.graph];
        let mut b: usize = 0;
        while b < self.batches.len()
            invariant
                self.graph.wf(),
                self.batches == old(self).batches,
                b <= self.batches@.len(),
                no_batch_fires(old(self).graph, old(self).batches@) ==> self.graph == old(self).graph,
                gs.len() == b + 1,
                gs[0] == old(self).graph,
                gs.last() == self.graph,
                forall|k: int| 0 <= k < b ==> #[trigger] batch_ran(gs[k], gs[k + 1], self.batches@[k]),
            decreases self.batches@.len() - b,
        {
            let batch = &self.batches[b];
            let ghost before = self.graph;
            let passes = run_batch(&mut self.graph, batch);
            proof {
                let prev = gs;
                gs = gs.push(self.graph);
                assert forall|k: int| 0 <= k < b + 1 implies #[trigger] batch_ran(gs[k], gs[k + 1], self.batches@[k]) by {
                    if k < b {
                        assert(gs[k] == prev[k] && gs[k + 1] == prev[k + 1]);
                    } else {
                        assert(gs[k] == before);
                        assert(batch_run(gs[k], gs[k + 1], self.batches@[k], passes as nat));
                    }
                }
            }
            proof {
                if no_batch_fires(old(self).graph, old(self).batches@) {
                    assert(no_rule_fires(before, batch.rules@, batch.strategy.match_order));
                }
            }
            b += 1;
        }
        assert(batches_run(gs, old(self).batches@));
        self.graph.to_plan()
    }

    /// One pass of a batch: each rule in turn is tried at the nodes in the batch's
    /// order and applied at the first node where it proposes a rewrite. Tells
    /// whether the plan changed.
    pub fn apply_batch(&mut self, batch: &HepBatch) -> (r: bool)
        requires
            old(self).graph.wf(),
        ensures
            final(self).graph.wf(),
            final(self).batches == old(self).batches,
            extends(final(self).graph.nodes@, old(self).graph.nodes@),
            r == !no_rule_fires(old(self).graph, batch.rules@, batch.strategy.match_order),
            !r ==> final(self).graph == old(self).graph,
            exists|gs: Seq<HepGraph>|
                gs[0] == old(self).graph && gs.last() == final(self).graph && #[trigger] batch_pass(
                    gs,
                    batch.rules@,
                    batch.strategy.match_order,
                ),
    {
        apply_batch_to(&mut self.graph, batch)
    }
}

/// Runs passes of a batch until one changes nothing or the batch's pass limit is
/// reached; returns the number of passes.
pub fn run_batch(graph: &mut HepGraph, batch: &HepBatch) -> (passes: usize)
    requires
        old(graph).wf(),
    ensures
        final(graph).wf(),
        extends(final(graph).nodes@, old(graph).nodes@),
        batch_run(*old(graph), *final(graph), *batch, passes as nat),
{
    let ghost rules = batch.rules@;
    let ghost order = batch.strategy.match_order;
    let ghost mut gs: Seq<HepGraph> = seq![*graph];
    let mut passes: usize = 0;
    loop
        invariant
            graph.wf(),
            extends(graph.nodes@, old(graph).nodes@),
            rules == batch.rules@,
            order == batch.strategy.match_order,
            passes < batch.strategy.max_iteration || passes == 0,
            no_rule_fires(*old(graph), rules, order) ==> passes == 0 && *graph == *old(graph),
            gs.len() == passes + 1,
            gs[0] == *old(graph),
            gs.last() == *graph,
            forall|p: int| 0 <= p < passes ==> #[trigger] pass_step(gs[p], gs[p + 1], rules, order),
            forall|p: int| 0 <= p < passes ==> !no_rule_fires(#[trigger] gs[p], rules, order),
        decreases batch.strategy.max_iteration - passes,
    {
        let ghost before = *graph;
        let changed = apply_batch_to(graph, batch);
        passes += 1;
        proof {
            assert(pass_step(before, *graph, rules, order));
            let ghost prev = gs;
            gs = gs.push(*graph);
            assert forall|p: int| 0 <= p < passes implies #[trigger] pass_step(gs[p], gs[p + 1], rules, order) by {
                if p < passes - 1 {
                    assert(gs[p] == prev[p] && gs[p + 1] == prev[p + 1]);
                }
            }
            assert forall|p: int| 0 <= p < passes - 1 implies !no_rule_fires(#[trigger] gs[p], rules, order) by {
                assert(gs[p] == prev[p]);
            }
            assert(gs[passes - 1] == before);
        }
        if passes >= batch.strategy.max_iteration || !changed {
            proof {
                let n = passes as nat;
                assert(gs.len() == n + 1 && gs[0] == *old(graph) && gs.last() == *graph && (forall|p: int|
                    0 <= p < n ==> #[trigger] pass_step(gs[p], gs[p + 1], rules, order)) && (forall|p: int|
                    0 <= p < n - 1 ==> !no_rule_fires(#[trigger] gs[p], rules, order)) && (n
                    < batch.strategy.max_iteration ==> no_rule_fires(gs[n - 1], rules, order)));
            }
            return passes;
        }
        proof {
            assert forall|p: int| 0 <= p < passes implies !no_rule_fires(#[trigger] gs[p], rules, order) by {
                if p == passes - 1 {
                    assert(gs[p] == before);
                }
            }
        }
    }
}

fn apply_batch_to(graph: &mut HepGraph, batch: &HepBatch) -> (r: bool)
    requires
        old(graph).wf(),
    ensures
        final(graph).wf(),
        extends(final(graph).nodes@, old(graph).nodes@),
        r == !no_rule_fires(*old(graph), batch.rules@, batch.strategy.match_order),
        !r ==> *final(graph) == *old(graph),
        exists|gs: Seq<HepGraph>|
            gs[0] == *old(graph) && gs.last() == *final(graph) && #[trigger] batch_pass(
                gs,
                batch.rules@,
                batch.strategy.match_order,
            ),
{
    let ghost g0 = *graph;
    let ghost mut gs: Seq<HepGraph> = seq![g0];
    let order = batch.strategy.match_order;
    let mut rule_applied = false;
    let mut k: usize = 0;
    while k < batch.rules.len()
        invariant
            graph.wf(),
            extends(graph.nodes@, g0.nodes@),
            g0 == *old(graph),
            k <= batch.rules@.len(),
            order == batch.strategy.match_order,
            !rule_applied ==> *graph == g0,
            !rule_applied ==> forall|kk: int, i: int|
                0 <= kk < k && 0 <= i < traversal(g0, order).len() ==> !(
                #[trigger] batch.rules@[kk]).fires(g0.nodes@, #[trigger] traversal(g0, order)[i] as int),
            rule_applied ==> !no_rule_fires(g0, batch.rules@, order),
            gs.len() == k + 1,
            gs[0] == g0,
            gs.last() == *graph,
            forall|kk: int| 0 <= kk < k ==> rule_turn(#[trigger] gs[kk], gs[kk + 1], batch.rules@[kk], order),
        decreases batch.rules@.len() - k,
    {
        let rule = batch.rules[k];
        let ids = graph.nodes_iter(order);
        let ghost g1 = *graph;
        let mut fired = false;
        let mut i: usize = 0;
        while !fired && i < ids.len()
            invariant
                graph.wf(),
                extends(graph.nodes@, g0.nodes@),
                extends(g1.nodes@, g0.nodes@),
                g0 == *old(graph),
                k < batch.rules@.len(),
                rule == batch.rules@[k as int],
                order == batch.strategy.match_order,
                ids@ == traversal(g1, order),
                i <= ids@.len(),
                !fired ==> g1 == *graph,
                !fired ==> forall|j: int| 0 <= j < i ==> !rule.fires(g1.nodes@, #[trigger] ids@[j] as int),
                fired ==> (g1 == g0 ==> !no_rule_fires(g0, batch.rules@, order)),
                fired ==> i < ids@.len() && (exists|cand: OptTree|
                    #[trigger] rewrote_at(g1, *graph, rule, ids@[i as int] as int, cand)),
                forall|j: int| 0 <= j < i ==> !rule.fires(g1.nodes@, #[trigger] ids@[j] as int),
            decreases ids@.len() - i, if fired { 0int } else { 1int },
        {
            proof {
                lemma_order_below(g1.nodes@, g1.root as int, order == HepMatchOrder::TopDown);
                assert(ids@[i as int] < g1.nodes@.len());
            }
            if apply_rule(graph, rule, ids[i]) {
                fired = true;
            } else {
                i += 1;
            }
        }
        if fired {
            rule_applied = true;
        }
        proof {
            if fired {
                let cand = choose|cand: OptTree| #[trigger] rewrote_at(g1, *graph, rule, ids@[i as int] as int, cand);
                assert(rewrote_at(g1, *graph, rule, traversal(g1, order)[i as int] as int, cand));
            }
            assert(rule_turn(g1, *graph, rule, order));
            gs = gs.push(*graph);
            assert forall|kk: int| 0 <= kk < k + 1 implies rule_turn(#[trigger] gs[kk], gs[kk + 1], batch.rules@[kk], order) by {
                if kk < k {
                    assert(gs[kk] == gs.drop_last()[kk]);
                }
            }
        }
        k += 1;
    }
    assert(batch_pass(gs, batch.rules@, order));
    rule_applied
}

/// Tries one rule at one node; applies its rewrite if it proposes one.
fn apply_rule(graph: &mut HepGraph, rule: RuleImpl, node_id: HepNodeId) -> (r: bool)
    requires
        old(graph).wf(),
        node_id < old(graph).nodes@.len(),
    ensures
        final(graph).wf(),
        extends(final(graph).nodes@, old(graph).nodes@),
        r == rule.fires(old(graph).nodes@, node_id as int),
        !r ==> *final(graph) == *old(graph),
        r ==> exists|cand: OptTree| #[trigger] rewrote_at(*old(graph), *final(graph), rule, node_id as int, cand),
{
    let pattern = rule.pattern();
    let matched = {
        let matcher = HepMatcher::new(&pattern, node_id, graph);
        matcher.match_opt_expr()
    };
    proof {
        lemma_rule_pattern(rule, pattern, graph.nodes@, node_id as int);
    }
    match matched {
        Some(opt_expr) => {
            let mut substitute = Substitute::new();
            rule.apply(opt_expr, graph, &mut substitute);
            if substitute.opt_exprs.len() == 0 {
                return false;
            }
            let cand = substitute.opt_exprs.pop().unwrap();
            let ghost c = cand@;
            graph.replace_node(node_id, cand);
            assert(rewrote_at(*old(graph), *graph, rule, node_id as int, c));
            true
        },
        None => false,
    }
}

} // verus!
