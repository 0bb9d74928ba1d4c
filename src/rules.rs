use vstd::prelude::*;
use std::sync::Arc;
use crate::expr::{BoundExpr, has_resolvable_column, rewrite_input_refs};
use crate::graph::{HepGraph, HepNode, HepNodeId, child, children_below, refs_below, tree_at};
use crate::matcher::{Pattern, PatternChildren, pattern_matches, matched_tree};
use crate::opt_expr::{OptExpr, OptExprNode, OptTree};
use crate::plan_node::{
    LogicalFilter, LogicalProject, PhysicalFilter, PhysicalLimit, PhysicalOrder, PhysicalProject,
    PhysicalTableScan, PlanNode, tree_schema,
};
use crate::types::ColumnCatalog;

verus! {

/// What a rule proposes in place of the subtree it matched: nothing, or one tree.
#[derive(Debug)]
pub struct Substitute {
    pub opt_exprs: Vec<OptExpr>,
}

impl Substitute {
    pub fn new() -> (r: Self)
        ensures
            r.opt_exprs@.len() == 0,
    {
        Substitute { opt_exprs: Vec::new() }
    }
}

/// Rewrites named column references into positions in the node's input.
#[derive(Debug, Clone, Copy, PartialEq, Eq, Structural)]
pub struct InputRefRewriteRule {}

/// Turns a logical node into its physical counterpart.
#[derive(Debug, Clone, Copy, PartialEq, Eq, Structural)]
pub struct PhysicalRewriteRule {}

/// The rules that the optimizer knows.
#[derive(Debug, Clone, Copy, PartialEq, Eq, Structural)]
pub enum RuleImpl {
    InputRefRewrite(InputRefRewriteRule),
    PhysicalRewrite(PhysicalRewriteRule),
}

impl InputRefRewriteRule {
    pub fn create() -> (r: RuleImpl)
        ensures
            r is InputRefRewrite,
    {
        RuleImpl::InputRefRewrite(InputRefRewriteRule {})
    }
}

impl PhysicalRewriteRule {
    pub fn create() -> (r: RuleImpl)
        ensures
            r is PhysicalRewrite,
    {
        RuleImpl::PhysicalRewrite(PhysicalRewriteRule {})
    }
}

/// The output columns of the subtree at `id`.
pub open spec fn schema_at(nodes: Seq<HepNode>, id: int) -> Seq<ColumnCatalog> {
    tree_schema(tree_at(nodes, id))
}

/// Whether the node holds a column reference that `schema` resolves.
pub open spec fn input_refs_apply(n: PlanNode, schema: Seq<ColumnCatalog>) -> bool {
    match n {
        PlanNode::LogicalFilter(f) => has_resolvable_column(f.expr, schema),
        PlanNode::LogicalProject(p) => exists|i: int|
            0 <= i < p.exprs@.len() && has_resolvable_column(#[trigger] p.exprs@[i], schema),
        _ => false,
    }
}

/// `new` is `old` with its column references resolved against `schema`.
pub open spec fn rewrites_input_refs(old: PlanNode, new: PlanNode, schema: Seq<ColumnCatalog>) -> bool {
    match (old, new) {
        (PlanNode::LogicalFilter(a), PlanNode::LogicalFilter(b)) => b.expr == rewrite_input_refs(
            a.expr,
            schema,
        ),
        (PlanNode::LogicalProject(a), PlanNode::LogicalProject(b)) => b.exprs@ == a.exprs@.map_values(
            |e: BoundExpr| rewrite_input_refs(e, schema),
        ),
        _ => false,
    }
}

/// Whether the node is logical and so has a physical counterpart.
pub open spec fn has_physical(n: PlanNode) -> bool {
    match n {
        PlanNode::LogicalTableScan(_) | PlanNode::LogicalFilter(_) | PlanNode::LogicalProject(_)
        | PlanNode::LogicalLimit(_) | PlanNode::LogicalOrder(_) => true,
        _ => false,
    }
}

/// `new` is the physical counterpart of `old`, over the same data.
pub open spec fn is_physical_of(old: PlanNode, new: PlanNode) -> bool {
    match (old, new) {
        (PlanNode::LogicalTableScan(a), PlanNode::PhysicalTableScan(b)) => b.spec_logical() == *a,
        (PlanNode::LogicalFilter(a), PlanNode::PhysicalFilter(b)) => b.spec_logical() == *a,
        (PlanNode::LogicalProject(a), PlanNode::PhysicalProject(b)) => b.spec_logical() == *a,
        (PlanNode::LogicalLimit(a), PlanNode::PhysicalLimit(b)) => b.spec_logical() == *a,
        (PlanNode::LogicalOrder(a), PlanNode::PhysicalOrder(b)) => b.spec_logical() == *a,
        _ => false,
    }
}

/// A reference to graph node `id` with nothing below it expanded.
pub open spec fn graph_leaf(id: HepNodeId) -> OptTree {
    OptTree { root: OptExprNode::OptExpr(id), children: Seq::empty() }
}

/// The graph node at the root of a captured tree.
pub open spec fn root_id(o: OptTree) -> int {
    match o.root {
        OptExprNode::OptExpr(id) => id as int,
        OptExprNode::PlanRef(_) => -1,
    }
}

impl RuleImpl {
    /// What the rule's pattern is.
    pub open spec fn is_pattern(&self, p: Pattern) -> bool {
        match self {
            RuleImpl::InputRefRewrite(_) => p.predicate is None && match p.children {
                PatternChildren::List(ps) => ps@.len() == 1 && ps@[0].predicate is None
                    && ps@[0].children is Opaque,
                PatternChildren::Opaque => false,
            },
            RuleImpl::PhysicalRewrite(_) => p.predicate is None && p.children is Opaque,
        }
    }

    /// Whether the rule's pattern matches node `id`.
    pub open spec fn spec_matches(&self, nodes: Seq<HepNode>, id: int) -> bool {
        0 <= id < nodes.len() && match self {
            RuleImpl::InputRefRewrite(_) => nodes[id].children@.len() == 1 && 0 <= child(nodes, id, 0)
                < id,
            RuleImpl::PhysicalRewrite(_) => true,
        }
    }

    /// Whether the rule, matched at `id`, proposes a rewrite.
    pub open spec fn fires(&self, nodes: Seq<HepNode>, id: int) -> bool {
        self.spec_matches(nodes, id) && match self {
            RuleImpl::InputRefRewrite(_) => input_refs_apply(
                nodes[id].node,
                schema_at(nodes, child(nodes, id, 0)),
            ),
            RuleImpl::PhysicalRewrite(_) => has_physical(nodes[id].node),
        }
    }

    /// Whether `cand` is the rewrite that the rule proposes at `id`.
    pub open spec fn is_candidate(&self, nodes: Seq<HepNode>, id: int, cand: OptTree) -> bool {
        match cand.root {
            OptExprNode::PlanRef(n) => match self {
                RuleImpl::InputRefRewrite(_) => rewrites_input_refs(
                    nodes[id].node,
                    n,
                    schema_at(nodes, child(nodes, id, 0)),
                ) && cand.children == seq![graph_leaf(nodes[id].children@[0])],
                RuleImpl::PhysicalRewrite(_) => is_physical_of(nodes[id].node, n) && cand.children
                    == nodes[id].children@.map_values(|c: HepNodeId| graph_leaf(c)),
            },
            OptExprNode::OptExpr(_) => false,
        }
    }

    /// The rule's pattern.
    pub fn pattern(&self) -> (r: Pattern)
        ensures
            self.is_pattern(r),
    {
        match self {
            RuleImpl::InputRefRewrite(_) => Pattern {
                predicate: None,
                children: PatternChildren::List(vec![Pattern::any()]),
            },
            RuleImpl::PhysicalRewrite(_) => Pattern::any(),
        }
    }

    /// Proposes at most one tree in place of the matched subtree at the root of `opt_expr`.
    pub fn apply(&self, opt_expr: OptExpr, graph: &HepGraph, substitute: &mut Substitute)
        requires
            graph.wf(),
            self.spec_matches(graph.nodes@, root_id(opt_expr@)),
            old(substitute).opt_exprs@.len() == 0,
        ensures
            final(substitute).opt_exprs@.len() == if self.fires(graph.nodes@, root_id(opt_expr@)) {
                1int
            } else {
                0int
            },
            final(substitute).opt_exprs@.len() == 1 ==> self.is_candidate(
                graph.nodes@,
                root_id(opt_expr@),
                final(substitute).opt_exprs@[0]@,
            ) && refs_below(final(substitute).opt_exprs@[0]@, graph.nodes@.len()),
    {
        let id = match &opt_expr.root {
            OptExprNode::OptExpr(id) => *id,
            OptExprNode::PlanRef(_) => {
                return;
            },
        };
        match self {
            RuleImpl::InputRefRewrite(_) => apply_input_refs(id, graph, substitute),
            RuleImpl::PhysicalRewrite(_) => apply_physical(id, graph, substitute),
        }
    }
}

/// A rule's pattern matches exactly where the rule says it matches.
pub proof fn lemma_rule_pattern(rule: RuleImpl, p: Pattern, nodes: Seq<HepNode>, id: int)
    requires
        rule.is_pattern(p),
        children_below(nodes),
    ensures
        pattern_matches(nodes, p, id) == rule.spec_matches(nodes, id),
        root_id(matched_tree(nodes, p, id)) == id as HepNodeId as int,
{
    if let PatternChildren::List(ps) = p.children {
        if 0 <= id < nodes.len() && nodes[id].children@.len() == 1 {
            assert(nodes[id].children@[0] < id);
            if rule.spec_matches(nodes, id) {
                assert(pattern_matches(nodes, ps@[0], child(nodes, id, 0)));
            }
        }
    }
}

/// Resolves every expression of a list against `schema`; also tells whether any
/// of them held a column reference to resolve.
fn rewrite_exprs(exprs: &Vec<BoundExpr>, schema: &Vec<ColumnCatalog>) -> (r: (Vec<BoundExpr>, bool))
    ensures
        r.0@ == exprs@.map_values(|e: BoundExpr| rewrite_input_refs(e, schema@)),
        r.1 == exists|i: int| 0 <= i < exprs@.len() && has_resolvable_column(#[trigger] exprs@[i], schema@),
{
    let mut out: Vec<BoundExpr> = Vec::new();
    let mut any = false;
    let mut i: usize = 0;
    while i < exprs.len()
        invariant
            i <= exprs@.len(),
            out@ == exprs@.subrange(0, i as int).map_values(|e: BoundExpr| rewrite_input_refs(e, schema@)),
            any == exists|j: int| 0 <= j < i && has_resolvable_column(#[trigger] exprs@[j], schema@),
        decreases exprs@.len() - i,
    {
        let (e, c) = exprs[i].rewrite_input_refs(schema);
        out.push(e);
        any = any || c;
        i += 1;
        assert(out@ =~= exprs@.subrange(0, i as int).map_values(|e: BoundExpr| rewrite_input_refs(e, schema@)));
    }
    assert(exprs@.subrange(0, exprs@.len() as int) =~= exprs@);
    (out, any)
}

fn apply_input_refs(id: HepNodeId, graph: &HepGraph, substitute: &mut Substitute)
    requires
        graph.wf(),
        RuleImpl::InputRefRewrite(InputRefRewriteRule {}).spec_matches(graph.nodes@, id as int),
        old(substitute).opt_exprs@.len() == 0,
    ensures
        final(substitute).opt_exprs@.len() == if RuleImpl::InputRefRewrite(InputRefRewriteRule {}).fires(
            graph.nodes@,
            id as int,
        ) {
            1int
        } else {
            0int
        },
        final(substitute).opt_exprs@.len() == 1 ==> RuleImpl::InputRefRewrite(
            InputRefRewriteRule {},
        ).is_candidate(graph.nodes@, id as int, final(substitute).opt_exprs@[0]@) && refs_below(
            final(substitute).opt_exprs@[0]@,
            graph.nodes@.len(),
        ),
{
    let c = graph.children(id)[0];
    let schema = graph.schema_of(c);
    let new_node = match graph.node(id) {
        PlanNode::LogicalFilter(f) => {
            let (e, changed) = f.expr.rewrite_input_refs(&schema);
            if !changed {
                return;
            }
            PlanNode::LogicalFilter(Arc::new(LogicalFilter { expr: e }))
        },
        PlanNode::LogicalProject(p) => {
            let (exprs, changed) = rewrite_exprs(&p.exprs, &schema);
            if !changed {
                return;
            }
            PlanNode::LogicalProject(Arc::new(LogicalProject { exprs }))
        },
        _ => {
            return;
        },
    };
    let leaf = OptExpr::new(OptExprNode::OptExpr(c), Vec::new());
    let cand = OptExpr::new(OptExprNode::PlanRef(new_node), vec![leaf]);
    assert(leaf@.children =~= Seq::<OptTree>::empty());
    assert(cand@.children =~= seq![graph_leaf(c)]);
    assert(c < id);
    assert(refs_below(cand@.children[0], graph.nodes@.len()));
    substitute.opt_exprs.push(cand);
}

fn apply_physical(id: HepNodeId, graph: &HepGraph, substitute: &mut Substitute)
    requires
        graph.wf(),
        RuleImpl::PhysicalRewrite(PhysicalRewriteRule {}).spec_matches(graph.nodes@, id as int),
        old(substitute).opt_exprs@.len() == 0,
    ensures
        final(substitute).opt_exprs@.len() == if RuleImpl::PhysicalRewrite(PhysicalRewriteRule {}).fires(
            graph.nodes@,
            id as int,
        ) {
            1int
        } else {
            0int
        },
        final(substitute).opt_exprs@.len() == 1 ==> RuleImpl::PhysicalRewrite(
            PhysicalRewriteRule {},
        ).is_candidate(graph.nodes@, id as int, final(substitute).opt_exprs@[0]@) && refs_below(
            final(substitute).opt_exprs@[0]@,
            graph.nodes@.len(),
        ),
{
    let new_node = match graph.node(id) {
        PlanNode::LogicalTableScan(a) => PlanNode::PhysicalTableScan(PhysicalTableScan::new(a.clone())),
        PlanNode::LogicalFilter(a) => PlanNode::PhysicalFilter(PhysicalFilter::new(a.clone())),
        PlanNode::LogicalProject(a) => PlanNode::PhysicalProject(PhysicalProject::new(a.clone())),
        PlanNode::LogicalLimit(a) => PlanNode::PhysicalLimit(PhysicalLimit::new(a.clone())),
        PlanNode::LogicalOrder(a) => PlanNode::PhysicalOrder(PhysicalOrder::new_shared(a.clone())),
        _ => {
            return;
        },
    };
    let kids = graph.children(id);
    let mut leaves: Vec<OptExpr> = Vec::new();
    let mut i: usize = 0;
    while i < kids.len()
        invariant
            graph.wf(),
            id < graph.nodes@.len(),
            *kids == graph.nodes@[id as int].children,
            i <= kids@.len(),
            leaves@.len() == i,
            forall|j: int| 0 <= j < i ==> (#[trigger] leaves@[j])@ == graph_leaf(kids@[j]),
        decreases kids@.len() - i,
    {
        let leaf = OptExpr::new(OptExprNode::OptExpr(kids[i]), Vec::new());
        assert(leaf@.children =~= Seq::<OptTree>::empty());
        leaves.push(leaf);
        i += 1;
    }
    let cand = OptExpr::new(OptExprNode::PlanRef(new_node), leaves);
    assert(cand@.children =~= kids@.map_values(|c: HepNodeId| graph_leaf(c)));
    assert forall|j: int| 0 <= j < cand@.children.len() implies refs_below(
        #[trigger] cand@.children[j],
        graph.nodes@.len(),
    ) by {
        assert(kids@[j] < id);
    }
    substitute.opt_exprs.push(cand);
}

} // verus!
