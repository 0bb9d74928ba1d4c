use vstd::prelude::*;
use crate::plan_node::{Dummy, PlanNode, PlanRef, PlanTree};

verus! {

/// Identifies a node inside one graph.
pub type OptExprNodeId = usize;

/// The root of an `OptExpr`: node data not yet in the graph, or a node already there.
#[derive(Debug, PartialEq)]
pub enum OptExprNode {
    /// Node data whose children are placeholders.
    PlanRef(PlanNode),
    /// A node resident in the graph, with the whole subtree under it.
    OptExpr(OptExprNodeId),
}

impl Clone for OptExprNode {
    fn clone(&self) -> (r: Self)
        ensures
            r == *self,
    {
        match self {
            OptExprNode::PlanRef(p) => OptExprNode::PlanRef(p.clone()),
            OptExprNode::OptExpr(id) => OptExprNode::OptExpr(*id),
        }
    }
}

/// A tree that mixes new node data with references to nodes of a graph.
#[derive(Debug)]
pub struct OptExpr {
    pub root: OptExprNode,
    pub children: Vec<OptExpr>,
}

/// An `OptExpr` as a mathematical value.
pub ghost struct OptTree {
    pub root: OptExprNode,
    pub children: Seq<OptTree>,
}

pub open spec fn opt_tree(e: OptExpr) -> OptTree
    decreases e,
{
    OptTree {
        root: e.root,
        children: Seq::new(
            e.children@.len(),
            |i: int|
                if 0 <= i < e.children@.len() {
                    opt_tree(e.children@[i])
                } else {
                    OptTree { root: e.root, children: Seq::empty() }
                },
        ),
    }
}

impl View for OptExpr {
    type V = OptTree;

    open spec fn view(&self) -> OptTree {
        opt_tree(*self)
    }
}

/// The tree of new nodes that holds the data of `t`, node for node.
pub open spec fn raw_tree(t: PlanTree) -> OptTree
    decreases t,
{
    OptTree {
        root: OptExprNode::PlanRef(t.node),
        children: Seq::new(
            t.children.len(),
            |i: int|
                if 0 <= i < t.children.len() {
                    raw_tree(t.children[i])
                } else {
                    OptTree { root: OptExprNode::OptExpr(0), children: Seq::empty() }
                },
        ),
    }
}

/// The plan that a tree of new nodes describes; a graph reference becomes a
/// childless placeholder.
pub open spec fn opt_to_plan(o: OptTree) -> PlanTree
    decreases o,
{
    match o.root {
        OptExprNode::PlanRef(n) => PlanTree {
            node: n,
            children: Seq::new(
                o.children.len(),
                |i: int|
                    if 0 <= i < o.children.len() {
                        opt_to_plan(o.children[i])
                    } else {
                        PlanTree { node: n, children: Seq::empty() }
                    },
            ),
        },
        OptExprNode::OptExpr(_) => PlanTree { node: PlanNode::Dummy(Dummy {}), children: Seq::empty() },
    }
}

/// Turning a plan into an `OptExpr` and back gives the same plan: by the
/// contracts of `new_from_plan_ref` and `to_plan_ref`, the plan that
/// `to_plan_ref(new_from_plan_ref(p))` returns is structurally equal to `p`.
pub proof fn lemma_round_trip(t: PlanTree)
    ensures
        opt_to_plan(raw_tree(t)) == t,
    decreases t,
{
    let r = raw_tree(t);
    let back = opt_to_plan(r);
    assert forall|i: int| 0 <= i < t.children.len() implies back.children[i] == t.children[i] by {
        lemma_round_trip(t.children[i]);
    }
    assert(back.children =~= t.children);
}

impl OptExpr {
    pub fn new(root: OptExprNode, children: Vec<OptExpr>) -> (r: Self)
        ensures
            r.root == root,
            r.children == children,
    {
        OptExpr { root, children }
    }

    /// The tree of new nodes that holds the plan's data, node for node.
    pub fn new_from_plan_ref(plan: &PlanRef) -> (r: Self)
        ensures
            r@ == raw_tree(plan@),
    {
        OptExpr::build_opt_expr_internal(plan)
    }

    fn build_opt_expr_internal(input: &PlanRef) -> (r: OptExpr)
        ensures
            r@ == raw_tree(input@),
        decreases input,
    {
        let root = OptExprNode::PlanRef(input.clone_with_dummy());
        let mut children: Vec<OptExpr> = Vec::new();
        let mut i: usize = 0;
        while i < input.children.len()
            invariant
                i <= input.children@.len(),
                children@.len() == i,
                forall|j: int| 0 <= j < i ==> children@[j]@ == raw_tree(input@.children[j]),
            decreases input.children@.len() - i,
        {
            assert(input@.children[i as int] == input.children@[i as int]@);
            children.push(OptExpr::build_opt_expr_internal(&input.children[i]));
            i += 1;
        }
        let r = OptExpr { root, children };
        assert(r@.children =~= raw_tree(input@).children);
        r
    }

    /// The plan that the tree describes; meaningful where it holds new nodes only.
    pub fn to_plan_ref(&self) -> (r: PlanRef)
        ensures
            r@ == opt_to_plan(self@),
        decreases self,
    {
        match &self.root {
            OptExprNode::PlanRef(p) => {
                let mut children: Vec<PlanRef> = Vec::new();
                let mut i: usize = 0;
                while i < self.children.len()
                    invariant
                        i <= self.children@.len(),
                        children@.len() == i,
                        forall|j: int|
                            0 <= j < i ==> children@[j]@ == opt_to_plan(self@.children[j]),
                    decreases self.children@.len() - i,
                {
                    assert(self@.children[i as int] == self.children@[i as int]@);
                    children.push(self.children[i].to_plan_ref());
                    i += 1;
                }
                let r = PlanRef::new(p.clone(), children);
                assert(r@.children =~= opt_to_plan(self@).children);
                r
            },
            OptExprNode::OptExpr(_) => {
                let r = PlanRef::new(PlanNode::Dummy(Dummy {}), Vec::new());
                assert(r@.children =~= Seq::<PlanTree>::empty());
                r
            },
        }
    }
}

} // verus!
