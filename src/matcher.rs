use vstd::prelude::*;
use crate::graph::{HepGraph, HepNode, HepNodeId, child, children_below};
use crate::opt_expr::{OptExpr, OptExprNode, OptTree};
use crate::plan_node::{PlanNode, PlanNodeType};

verus! {

/// What a pattern asks of a node's children.
#[derive(Debug)]
pub enum PatternChildren {
    /// Exactly these children, each matching its pattern, in order.
    List(Vec<Pattern>),
    /// Anything: the subtree is taken as it is, without looking inside.
    Opaque,
}

/// A template of node shapes: a node type (or any type) and what the children must be.
#[derive(Debug)]
pub struct Pattern {
    /// The node type asked for; `None` matches every type.
    pub predicate: Option<PlanNodeType>,
    pub children: PatternChildren,
}

impl Pattern {
    /// A pattern that matches every node and does not look at its children.
    pub fn any() -> (r: Pattern)
        ensures
            r.predicate is None,
            r.children is Opaque,
    {
        Pattern { predicate: None, children: PatternChildren::Opaque }
    }
}

/// Whether the node's type is the one the pattern asks for.
pub open spec fn type_matches(p: Pattern, n: PlanNode) -> bool {
    match p.predicate {
        None => true,
        Some(t) => n.spec_node_type() == t,
    }
}

/// Whether the subtree at `id` has the shape of `p`.
pub open spec fn pattern_matches(nodes: Seq<HepNode>, p: Pattern, id: int) -> bool
    decreases p,
{
    0 <= id < nodes.len() && type_matches(p, nodes[id].node) && match p.children {
        PatternChildren::Opaque => true,
        PatternChildren::List(ps) => ps@.len() == nodes[id].children@.len() && forall|i: int|
            0 <= i < ps@.len() ==> 0 <= #[trigger] child(nodes, id, i) < id && pattern_matches(
                nodes,
                ps@[i],
                child(nodes, id, i),
            ),
    }
}

/// What a match of `p` at `id` captures: the pattern's shape, with each position
/// a reference to the graph node there.
pub open spec fn matched_tree(nodes: Seq<HepNode>, p: Pattern, id: int) -> OptTree
    decreases p,
{
    OptTree {
        root: OptExprNode::OptExpr(id as HepNodeId),
        children: match p.children {
            PatternChildren::Opaque => Seq::empty(),
            PatternChildren::List(ps) => Seq::new(
                ps@.len(),
                |i: int|
                    if 0 <= i < ps@.len() {
                        matched_tree(nodes, ps@[i], child(nodes, id, i))
                    } else {
                        OptTree { root: OptExprNode::OptExpr(0), children: Seq::empty() }
                    },
            ),
        },
    }
}

/// A pattern with `k` child patterns matches no node with another number of children.
pub proof fn lemma_pattern_arity(nodes: Seq<HepNode>, p: Pattern, id: int)
    requires
        p.children matches PatternChildren::List(ps) && 0 <= id < nodes.len()
            && ps@.len() != nodes[id].children@.len(),
    ensures
        !pattern_matches(nodes, p, id),
{
}

/// Matches a pattern against the subtree at one node of a graph.
pub struct HepMatcher<'a> {
    pub pattern: &'a Pattern,
    pub start_id: HepNodeId,
    pub graph: &'a HepGraph,
}

impl<'a> HepMatcher<'a> {
    pub fn new(pattern: &'a Pattern, start_id: HepNodeId, graph: &'a HepGraph) -> (r: Self)
        ensures
            r.pattern == pattern,
            r.start_id == start_id,
            r.graph == graph,
    {
        HepMatcher { pattern, start_id, graph }
    }

    /// The captured tree if the subtree at the start node has the pattern's shape.
    pub fn match_opt_expr(&self) -> (r: Option<OptExpr>)
        requires
            self.graph.wf(),
            self.start_id < self.graph.nodes@.len(),
        ensures
            r is Some == pattern_matches(self.graph.nodes@, *self.pattern, self.start_id as int),
            r matches Some(e) ==> e@ == matched_tree(
                self.graph.nodes@,
                *self.pattern,
                self.start_id as int,
            ),
    {
        match_at(self.pattern, self.start_id, self.graph)
    }
}

fn match_at(pattern: &Pattern, id: HepNodeId, graph: &HepGraph) -> (r: Option<OptExpr>)
    requires
        children_below(graph.nodes@),
        id < graph.nodes@.len(),
    ensures
        r is Some == pattern_matches(graph.nodes@, *pattern, id as int),
        r matches Some(e) ==> e@ == matched_tree(graph.nodes@, *pattern, id as int),
    decreases pattern,
{
    let ghost nodes = graph.nodes@;
    let type_ok = match pattern.predicate {
        None => true,
        Some(t) => graph.node(id).node_type() == t,
    };
    if !type_ok {
        return None;
    }
    match &pattern.children {
        PatternChildren::Opaque => {
            let r = OptExpr::new(OptExprNode::OptExpr(id), Vec::new());
            assert(r@.children =~= matched_tree(nodes, *pattern, id as int).children);
            Some(r)
        },
        PatternChildren::List(ps) => {
            let kids = graph.children(id);
            if ps.len() != kids.len() {
                return None;
            }
            let mut out: Vec<OptExpr> = Vec::new();
            let mut i: usize = 0;
            while i < ps.len()
                invariant
                    children_below(nodes),
                    nodes == graph.nodes@,
                    id < nodes.len(),
                    pattern.children == PatternChildren::List(*ps),
                    type_matches(*pattern, nodes[id as int].node),
                    *kids == nodes[id as int].children,
                    ps@.len() == kids@.len(),
                    i <= ps@.len(),
                    out@.len() == i,
                    forall|j: int|
                        0 <= j < i ==> pattern_matches(nodes, ps@[j], child(nodes, id as int, j)),
                    forall|j: int|
                        0 <= j < i ==> (#[trigger] out@[j])@ == matched_tree(
                            nodes,
                            ps@[j],
                            child(nodes, id as int, j),
                        ),
                decreases ps@.len() - i,
            {
                assert(kids@[i as int] < id);
                match match_at(&ps[i], kids[i], graph) {
                    Some(e) => {
                        out.push(e);
                    },
                    None => {
                        assert(!pattern_matches(nodes, ps@[i as int], child(nodes, id as int, i as int)));
                        return None;
                    },
                }
                i += 1;
            }
            assert forall|j: int| 0 <= j < ps@.len() implies 0 <= #[trigger] child(nodes, id as int, j)
                < id && pattern_matches(nodes, ps@[j], child(nodes, id as int, j)) by {
                assert(nodes[id as int].children@[j] < id);
            }
            let r = OptExpr::new(OptExprNode::OptExpr(id), out);
            assert(r@.children =~= matched_tree(nodes, *pattern, id as int).children);
            Some(r)
        },
    }
}

} // verus!
