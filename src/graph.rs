use vstd::prelude::*;
use crate::opt_expr::{OptExpr, OptExprNode, OptTree};
use crate::plan_node::{Dummy, PlanNode, PlanRef, PlanTree, tree_schema};
use crate::types::ColumnCatalog;

verus! {

/// Identifies a node of a `HepGraph`.
pub type HepNodeId = usize;

/// The order in which a traversal lists the nodes of a graph.
#[derive(Debug, Clone, Copy, PartialEq, Eq, Structural)]
pub enum HepMatchOrder {
    /// Each parent before its children.
    TopDown,
    /// Each parent after its children.
    BottomUp,
}

/// A node of the graph: its data, and the ids of its children in operand order.
#[derive(Debug)]
pub struct HepNode {
    pub node: PlanNode,
    pub children: Vec<HepNodeId>,
}

/// A plan stored as an arena of nodes addressed by id.
///
/// Ids are positions in `nodes`, handed out in increasing order. A child's id is
/// always below its parent's, so following children from the root ends.
#[derive(Debug)]
pub struct HepGraph {
    pub nodes: Vec<HepNode>,
    pub root: HepNodeId,
}

/// A childless placeholder tree.
pub open spec fn leaf() -> PlanTree {
    PlanTree { node: PlanNode::Dummy(Dummy {}), children: Seq::empty() }
}

/// Every child id lies below the id of its parent.
pub open spec fn children_below(nodes: Seq<HepNode>) -> bool {
    forall|i: int, j: int|
        0 <= i < nodes.len() && 0 <= j < nodes[i].children@.len() ==> #[trigger] nodes[i].children@[j]
            < i
}

/// `nodes` begins with the nodes of `old`, unchanged.
pub open spec fn extends(nodes: Seq<HepNode>, old: Seq<HepNode>) -> bool {
    old.len() <= nodes.len() && forall|k: int| 0 <= k < old.len() ==> nodes[k] == old[k]
}

/// The id of the `j`-th child of node `id`.
pub open spec fn child(nodes: Seq<HepNode>, id: int, j: int) -> int {
    nodes[id].children@[j] as int
}

/// The plan tree under node `id`.
pub open spec fn tree_at(nodes: Seq<HepNode>, id: int) -> PlanTree
    decreases id,
{
    if 0 <= id < nodes.len() {
        PlanTree {
            node: nodes[id].node,
            children: Seq::new(
                nodes[id].children@.len(),
                |j: int|
                    if 0 <= j < nodes[id].children@.len() && 0 <= child(nodes, id, j) < id {
                        tree_at(nodes, child(nodes, id, j))
                    } else {
                        leaf()
                    },
            ),
        }
    } else {
        leaf()
    }
}

/// Whether `target` is `id` or lies under it.
pub open spec fn contains(nodes: Seq<HepNode>, id: int, target: int) -> bool
    decreases id,
{
    if id == target {
        true
    } else if 0 <= id < nodes.len() {
        exists|j: int|
            0 <= j < nodes[id].children@.len() && 0 <= child(nodes, id, j) < id && contains(
                nodes,
                #[trigger] child(nodes, id, j),
                target,
            )
    } else {
        false
    }
}

/// The tree under `id` with the subtree at `target` replaced by `t`.
pub open spec fn replaced(nodes: Seq<HepNode>, id: int, target: int, t: PlanTree) -> PlanTree
    decreases id,
{
    if id == target {
        t
    } else if 0 <= id < nodes.len() {
        PlanTree {
            node: nodes[id].node,
            children: Seq::new(
                nodes[id].children@.len(),
                |j: int|
                    if 0 <= j < nodes[id].children@.len() && 0 <= child(nodes, id, j) < id {
                        replaced(nodes, child(nodes, id, j), target, t)
                    } else {
                        leaf()
                    },
            ),
        }
    } else {
        leaf()
    }
}

/// Every graph reference in `o` names one of the first `n` nodes.
pub open spec fn refs_below(o: OptTree, n: nat) -> bool
    decreases o,
{
    (o.root matches OptExprNode::OptExpr(id) ==> id < n) && forall|i: int|
        0 <= i < o.children.len() ==> refs_below(#[trigger] o.children[i], n)
}

/// The plan that `o` describes once written into the graph: new nodes with
/// their children, and graph references with the subtrees they name.
pub open spec fn resolve(nodes: Seq<HepNode>, o: OptTree) -> PlanTree
    decreases o,
{
    match o.root {
        OptExprNode::PlanRef(n) => PlanTree {
            node: n,
            children: Seq::new(
                o.children.len(),
                |i: int|
                    if 0 <= i < o.children.len() {
                        resolve(nodes, o.children[i])
                    } else {
                        leaf()
                    },
            ),
        },
        OptExprNode::OptExpr(id) => tree_at(nodes, id as int),
    }
}

/// The ids under `id`, each parent before its children (`top_down`) or after them.
pub open spec fn order_at(nodes: Seq<HepNode>, id: int, top_down: bool) -> Seq<HepNodeId>
    decreases id, 1int, 0int,
{
    if 0 <= id < nodes.len() {
        let kids = children_order(nodes, id, nodes[id].children@.len() as int, top_down);
        if top_down {
            seq![id as HepNodeId] + kids
        } else {
            kids + seq![id as HepNodeId]
        }
    } else {
        Seq::empty()
    }
}

/// The traversals under the first `k` children of `id`, one after another.
pub open spec fn children_order(nodes: Seq<HepNode>, id: int, k: int, top_down: bool) -> Seq<
    HepNodeId,
>
    decreases id, 0int, k,
{
    if k <= 0 || !(0 <= id < nodes.len()) || k > nodes[id].children@.len() {
        Seq::empty()
    } else {
        let c = child(nodes, id, k - 1);
        let rest = children_order(nodes, id, k - 1, top_down);
        if 0 <= c < id {
            rest + order_at(nodes, c, top_down)
        } else {
            rest
        }
    }
}

/// The subtree under `id` occupies exactly the ids `lo..=id`: its children's
/// subtrees one after another in operand order, then `id` itself. Such a
/// subtree is a tree, each of its nodes reached once.
pub open spec fn packed(nodes: Seq<HepNode>, id: int, lo: int) -> bool
    decreases id,
{
    0 <= lo <= id < nodes.len() && (nodes[id].children@.len() == 0 ==> lo == id) && (
    nodes[id].children@.len() > 0 ==> child(nodes, id, nodes[id].children@.len() - 1) == id - 1)
        && forall|j: int|
        0 <= j < nodes[id].children@.len() ==> 0 <= #[trigger] child(nodes, id, j) < id && packed(
            nodes,
            child(nodes, id, j),
            if j == 0 {
                lo
            } else {
                child(nodes, id, j - 1) + 1
            },
        )
}

/// Every element of `s` lies in `lo..=hi`.
pub open spec fn all_within(s: Seq<HepNodeId>, lo: int, hi: int) -> bool {
    forall|k: int| 0 <= k < s.len() ==> lo <= #[trigger] s[k] <= hi
}

proof fn lemma_join(a: Seq<HepNodeId>, b: Seq<HepNodeId>, la: int, ha: int, lb: int, hb: int)
    requires
        a.no_duplicates(),
        b.no_duplicates(),
        all_within(a, la, ha),
        all_within(b, lb, hb),
        ha < lb || hb < la,
    ensures
        (a + b).no_duplicates(),
        all_within(a + b, if la < lb { la } else { lb }, if ha < hb { hb } else { ha }),
{
    let c = a + b;
    let lo = if la < lb { la } else { lb };
    let hi = if ha < hb { hb } else { ha };
    assert forall|k: int| 0 <= k < c.len() implies lo <= #[trigger] c[k] <= hi by {
        if k < a.len() {
            assert(c[k] == a[k]);
            assert(la <= a[k] <= ha);
        } else {
            assert(c[k] == b[k - a.len()]);
            assert(lb <= b[k - a.len()] <= hb);
        }
    }
    assert forall|i: int, j: int| 0 <= i < c.len() && 0 <= j < c.len() && i != j implies c[i] != c[j] by {
        if i < a.len() && j >= a.len() {
            assert(c[i] == a[i] && c[j] == b[j - a.len()]);
            assert(la <= a[i] <= ha && lb <= b[j - a.len()] <= hb);
        } else if i >= a.len() && j < a.len() {
            assert(c[j] == a[j] && c[i] == b[i - a.len()]);
            assert(la <= a[j] <= ha && lb <= b[i - a.len()] <= hb);
        } else if i < a.len() {
            assert(c[i] == a[i] && c[j] == a[j]);
        } else {
            assert(c[i] == b[i - a.len()] && c[j] == b[j - a.len()]);
        }
    }
}

/// A packed subtree is listed by a traversal once per node: `id - lo + 1`
/// distinct ids, all in `lo..=id`.
pub proof fn lemma_packed_order(nodes: Seq<HepNode>, id: int, lo: int, top_down: bool)
    requires
        packed(nodes, id, lo),
        id <= usize::MAX,
    ensures
        order_at(nodes, id, top_down).len() == id - lo + 1,
        order_at(nodes, id, top_down).no_duplicates(),
        all_within(order_at(nodes, id, top_down), lo, id),
    decreases id, 1int, 0int,
{
    let n = nodes[id].children@.len() as int;
    let kids = children_order(nodes, id, n, top_down);
    let me: Seq<HepNodeId> = seq![id as HepNodeId];
    if n == 0 {
        assert(kids =~= Seq::<HepNodeId>::empty());
    } else {
        lemma_packed_children_order(nodes, id, lo, n, top_down);
    }
    let hi_kids = id - 1;
    assert(me[0] as int == id);
    assert(all_within(me, id, id));
    assert(me.no_duplicates());
    assert(kids.len() == id - lo);
    assert(kids.no_duplicates());
    assert(all_within(kids, lo, hi_kids));
    if top_down {
        lemma_join(me, kids, id, id, lo, id - 1);
    } else {
        lemma_join(kids, me, lo, id - 1, id, id);
    }
}

proof fn lemma_packed_children_order(nodes: Seq<HepNode>, id: int, lo: int, k: int, top_down: bool)
    requires
        packed(nodes, id, lo),
        0 < k <= nodes[id].children@.len(),
        id <= usize::MAX,
    ensures
        children_order(nodes, id, k, top_down).len() == child(nodes, id, k - 1) - lo + 1,
        children_order(nodes, id, k, top_down).no_duplicates(),
        all_within(children_order(nodes, id, k, top_down), lo, child(nodes, id, k - 1)),
    decreases id, 0int, k,
{
    let c = child(nodes, id, k - 1);
    let start = if k - 1 == 0 { lo } else { child(nodes, id, k - 2) + 1 };
    assert(0 <= c < id && packed(nodes, c, start));
    lemma_packed_order(nodes, c, start, top_down);
    let rest = children_order(nodes, id, k - 1, top_down);
    let o = order_at(nodes, c, top_down);
    assert(children_order(nodes, id, k, top_down) == rest + o);
    if k == 1 {
        assert(rest =~= Seq::<HepNodeId>::empty());
        assert(rest + o =~= o);
    } else {
        lemma_packed_children_order(nodes, id, lo, k - 1, top_down);
        lemma_join(rest, o, lo, start - 1, start, c);
    }
}

/// Where the subtree of the `j`-th of `kids` begins, the first one at `lo`.
pub open spec fn kid_lo(kids: Seq<HepNodeId>, j: int, lo: int) -> int {
    if j == 0 {
        lo
    } else {
        kids[j - 1] + 1
    }
}

/// The subtrees of the first `n` of `kids` are packed one after another from `lo`.
pub open spec fn kids_packed(nodes: Seq<HepNode>, kids: Seq<HepNodeId>, n: int, lo: int) -> bool {
    forall|j: int| 0 <= j < n ==> #[trigger] packed(nodes, kids[j] as int, kid_lo(kids, j, lo))
}

proof fn lemma_kids_packed_extends(nodes2: Seq<HepNode>, nodes: Seq<HepNode>, kids: Seq<HepNodeId>, n: int, lo: int)
    requires
        kids_packed(nodes, kids, n, lo),
        extends(nodes2, nodes),
    ensures
        kids_packed(nodes2, kids, n, lo),
{
    assert forall|j: int| 0 <= j < n implies #[trigger] packed(nodes2, kids[j] as int, kid_lo(kids, j, lo)) by {
        lemma_packed_extends(nodes2, nodes, kids[j] as int, kid_lo(kids, j, lo));
    }
}

/// A packed subtree stays packed when more nodes are added.
pub proof fn lemma_packed_extends(nodes2: Seq<HepNode>, nodes: Seq<HepNode>, id: int, lo: int)
    requires
        packed(nodes, id, lo),
        extends(nodes2, nodes),
    ensures
        packed(nodes2, id, lo),
    decreases id,
{
    assert(nodes2[id] == nodes[id]);
    assert forall|j: int| 0 <= j < nodes2[id].children@.len() implies 0 <= #[trigger] child(nodes2, id, j)
        < id && packed(
        nodes2,
        child(nodes2, id, j),
        if j == 0 {
            lo
        } else {
            child(nodes2, id, j - 1) + 1
        },
    ) by {
        assert(child(nodes2, id, j) == child(nodes, id, j));
        if j > 0 {
            assert(child(nodes2, id, j - 1) == child(nodes, id, j - 1));
        }
        lemma_packed_extends(
            nodes2,
            nodes,
            child(nodes, id, j),
            if j == 0 {
                lo
            } else {
                child(nodes, id, j - 1) + 1
            },
        );
    }
}

/// The tree under a node depends on the nodes up to it alone.
pub proof fn lemma_tree_at_extends(nodes: Seq<HepNode>, old: Seq<HepNode>, id: int)
    requires
        extends(nodes, old),
        0 <= id < old.len(),
    ensures
        tree_at(nodes, id) == tree_at(old, id),
    decreases id,
{
    let a = tree_at(nodes, id);
    let b = tree_at(old, id);
    assert forall|j: int| 0 <= j < a.children.len() implies a.children[j] == b.children[j] by {
        if 0 <= child(old, id, j) < id {
            lemma_tree_at_extends(nodes, old, child(old, id, j));
        }
    }
    assert(a.children =~= b.children);
}

/// What a reference tree resolves to depends on the nodes it names alone.
pub proof fn lemma_resolve_extends(nodes: Seq<HepNode>, old: Seq<HepNode>, o: OptTree)
    requires
        extends(nodes, old),
        refs_below(o, old.len()),
    ensures
        resolve(nodes, o) == resolve(old, o),
    decreases o,
{
    match o.root {
        OptExprNode::PlanRef(n) => {
            let a = resolve(nodes, o);
            let b = resolve(old, o);
            assert forall|i: int| 0 <= i < a.children.len() implies a.children[i] == b.children[i] by {
                lemma_resolve_extends(nodes, old, o.children[i]);
            }
            assert(a.children =~= b.children);
        },
        OptExprNode::OptExpr(id) => {
            lemma_tree_at_extends(nodes, old, id as int);
        },
    }
}

/// Replacing a node that is not under `id` leaves the tree under `id` as it is.
pub proof fn lemma_replaced_absent(nodes: Seq<HepNode>, id: int, target: int, t: PlanTree)
    requires
        !contains(nodes, id, target),
    ensures
        replaced(nodes, id, target, t) == tree_at(nodes, id),
    decreases id,
{
    if 0 <= id < nodes.len() {
        let a = replaced(nodes, id, target, t);
        let b = tree_at(nodes, id);
        assert forall|j: int| 0 <= j < a.children.len() implies a.children[j] == b.children[j] by {
            if 0 <= child(nodes, id, j) < id {
                assert(!contains(nodes, child(nodes, id, j), target));
                lemma_replaced_absent(nodes, child(nodes, id, j), target, t);
            }
        }
        assert(a.children =~= b.children);
    }
}

/// `nodes` holds under `new_id` a copy of the tree under `old_id` in `old` in
/// which only the nodes on the way down to `target` are new: each of them has the
/// data of the node it copies, a fresh id, and the same children but for the one
/// on the way; every subtree off the way keeps its id. In place of `target`
/// stands `sub_root`.
pub open spec fn path_copied(
    nodes: Seq<HepNode>,
    old: Seq<HepNode>,
    new_id: int,
    old_id: int,
    target: int,
    sub_root: int,
) -> bool
    decreases old_id,
{
    if old_id == target {
        new_id == sub_root
    } else if !contains(old, old_id, target) {
        new_id == old_id
    } else {
        0 <= old_id < old.len() && old.len() <= new_id < nodes.len() && nodes[new_id].node
            == old[old_id].node && nodes[new_id].children@.len() == old[old_id].children@.len()
            && forall|j: int|
            0 <= j < old[old_id].children@.len() ==> 0 <= #[trigger] child(old, old_id, j) < old_id
                && path_copied(nodes, old, child(nodes, new_id, j), child(old, old_id, j), target, sub_root)
    }
}

/// A path copy stays one when more nodes are added.
pub proof fn lemma_path_copied_extends(
    nodes2: Seq<HepNode>,
    nodes: Seq<HepNode>,
    old: Seq<HepNode>,
    new_id: int,
    old_id: int,
    target: int,
    sub_root: int,
)
    requires
        path_copied(nodes, old, new_id, old_id, target, sub_root),
        extends(nodes2, nodes),
    ensures
        path_copied(nodes2, old, new_id, old_id, target, sub_root),
    decreases old_id,
{
    if old_id != target && contains(old, old_id, target) {
        assert forall|j: int| 0 <= j < old[old_id].children@.len() implies 0 <= #[trigger] child(
            old,
            old_id,
            j,
        ) < old_id && path_copied(nodes2, old, child(nodes2, new_id, j), child(old, old_id, j), target, sub_root) by {
            lemma_path_copied_extends(nodes2, nodes, old, child(nodes, new_id, j), child(old, old_id, j), target, sub_root);
        }
    }
}

/// `nodes` holds `o` under `id` as `replace_node` writes it: each new node of `o`
/// under a fresh id (one not among the `old` nodes) with its data and children,
/// each graph reference under its own id.
pub open spec fn written(nodes: Seq<HepNode>, old: Seq<HepNode>, id: int, o: OptTree) -> bool
    decreases o,
{
    match o.root {
        OptExprNode::OptExpr(x) => id == x,
        OptExprNode::PlanRef(n) => old.len() <= id < nodes.len() && nodes[id].node == n
            && nodes[id].children@.len() == o.children.len() && forall|j: int|
            0 <= j < o.children.len() ==> written(nodes, old, child(nodes, id, j), #[trigger] o.children[j]),
    }
}

/// A written tree stays written when more nodes are added.
pub proof fn lemma_written_extends(
    nodes2: Seq<HepNode>,
    nodes: Seq<HepNode>,
    old: Seq<HepNode>,
    id: int,
    o: OptTree,
)
    requires
        written(nodes, old, id, o),
        extends(nodes2, nodes),
    ensures
        written(nodes2, old, id, o),
    decreases o,
{
    if let OptExprNode::PlanRef(_) = o.root {
        assert forall|j: int| 0 <= j < o.children.len() implies written(
            nodes2,
            old,
            child(nodes2, id, j),
            #[trigger] o.children[j],
        ) by {
            lemma_written_extends(nodes2, nodes, old, child(nodes, id, j), o.children[j]);
        }
    }
}

/// A tree written over fresh ids is so over fewer old nodes too.
pub proof fn lemma_written_older(
    nodes: Seq<HepNode>,
    old: Seq<HepNode>,
    older: Seq<HepNode>,
    id: int,
    o: OptTree,
)
    requires
        written(nodes, old, id, o),
        older.len() <= old.len(),
    ensures
        written(nodes, older, id, o),
    decreases o,
{
    if let OptExprNode::PlanRef(_) = o.root {
        assert forall|j: int| 0 <= j < o.children.len() implies written(
            nodes,
            older,
            child(nodes, id, j),
            #[trigger] o.children[j],
        ) by {
            lemma_written_older(nodes, old, older, child(nodes, id, j), o.children[j]);
        }
    }
}

/// A bound on the graph references of a tree holds of any larger bound too.
pub proof fn lemma_refs_below_mono(o: OptTree, n: nat, m: nat)
    requires
        refs_below(o, n),
        n <= m,
    ensures
        refs_below(o, m),
    decreases o,
{
    assert forall|i: int| 0 <= i < o.children.len() implies refs_below(#[trigger] o.children[i], m) by {
        lemma_refs_below_mono(o.children[i], n, m);
    }
}

/// Every id that a traversal lists is a node of the graph.
pub proof fn lemma_order_below(nodes: Seq<HepNode>, id: int, top_down: bool)
    requires
        children_below(nodes),
    ensures
        forall|i: int|
            0 <= i < order_at(nodes, id, top_down).len() ==> #[trigger] order_at(nodes, id, top_down)[i]
                < nodes.len(),
    decreases id, 1int, 0int,
{
    if 0 <= id < nodes.len() {
        let n = nodes[id].children@.len() as int;
        let kids = children_order(nodes, id, n, top_down);
        lemma_children_order_below(nodes, id, n, top_down);
        let s = order_at(nodes, id, top_down);
        assert forall|i: int| 0 <= i < s.len() implies #[trigger] s[i] < nodes.len() by {
            if top_down {
                assert(s == seq![id as HepNodeId] + kids);
                if i > 0 {
                    assert(s[i] == kids[i - 1]);
                }
            } else {
                assert(s == kids + seq![id as HepNodeId]);
                if i < kids.len() {
                    assert(s[i] == kids[i]);
                }
            }
        }
    }
}

/// Every id that the traversals under the first `k` children list is a node of the graph.
pub proof fn lemma_children_order_below(nodes: Seq<HepNode>, id: int, k: int, top_down: bool)
    requires
        children_below(nodes),
    ensures
        forall|i: int|
            0 <= i < children_order(nodes, id, k, top_down).len() ==> #[trigger] children_order(
                nodes,
                id,
                k,
                top_down,
            )[i] < nodes.len(),
    decreases id, 0int, k,
{
    if k <= 0 || !(0 <= id < nodes.len()) || k > nodes[id].children@.len() {
    } else {
        let c = child(nodes, id, k - 1);
        let rest = children_order(nodes, id, k - 1, top_down);
        lemma_children_order_below(nodes, id, k - 1, top_down);
        assert(nodes[id].children@[k - 1] < id);
        lemma_order_below(nodes, c, top_down);
        let o = order_at(nodes, c, top_down);
        let s = children_order(nodes, id, k, top_down);
        assert(s == rest + o);
        assert forall|i: int| 0 <= i < s.len() implies #[trigger] s[i] < nodes.len() by {
            if i < rest.len() {
                assert(s[i] == rest[i]);
            } else {
                assert(s[i] == o[i - rest.len()]);
            }
        }
    }
}

impl HepGraph {
    /// The root is a node of the graph and every child id lies below its parent's.
    pub open spec fn wf(&self) -> bool {
        self.root < self.nodes@.len() && children_below(self.nodes@)
    }

    /// The plan that the graph holds.
    pub open spec fn plan_view(&self) -> PlanTree {
        tree_at(self.nodes@, self.root as int)
    }

    /// Builds the graph of a plan: one node per plan node, children ids recorded.
    /// The graph is a tree: each traversal lists every node once.
    pub fn new(root: PlanRef) -> (r: Self)
        ensures
            r.wf(),
            r.plan_view() == root@,
            packed(r.nodes@, r.root as int, 0),
            r.root == r.nodes@.len() - 1,
            forall|top_down: bool|
                #[trigger] order_at(r.nodes@, r.root as int, top_down).len() == r.nodes@.len()
                    && order_at(r.nodes@, r.root as int, top_down).no_duplicates(),
    {
        let mut g = HepGraph { nodes: Vec::new(), root: 0 };
        let id = g.add_plan(&root);
        g.root = id;
        proof {
            assert forall|top_down: bool|
                #[trigger] order_at(g.nodes@, g.root as int, top_down).len() == g.nodes@.len()
                    && order_at(g.nodes@, g.root as int, top_down).no_duplicates() by {
                lemma_packed_order(g.nodes@, g.root as int, 0, top_down);
            }
        }
        g
    }

    fn add_plan(&mut self, p: &PlanRef) -> (id: HepNodeId)
        requires
            children_below(old(self).nodes@),
        ensures
            children_below(final(self).nodes@),
            extends(final(self).nodes@, old(self).nodes@),
            final(self).root == old(self).root,
            id < final(self).nodes@.len(),
            tree_at(final(self).nodes@, id as int) == p@,
            id == final(self).nodes@.len() - 1,
            packed(final(self).nodes@, id as int, old(self).nodes@.len() as int),
        decreases p,
    {
        let mut kids: Vec<HepNodeId> = Vec::new();
        let mut i: usize = 0;
        while i < p.children.len()
            invariant
                i <= p.children@.len(),
                kids@.len() == i,
                children_below(self.nodes@),
                extends(self.nodes@, old(self).nodes@),
                self.root == old(self).root,
                forall|j: int| 0 <= j < i ==> kids@[j] < self.nodes@.len(),
                forall|j: int|
                    0 <= j < i ==> tree_at(self.nodes@, #[trigger] kids@[j] as int) == p@.children[j],
                i == 0 ==> self.nodes@.len() == old(self).nodes@.len(),
                i > 0 ==> kids@[i - 1] == self.nodes@.len() - 1,
                kids_packed(self.nodes@, kids@, i as int, old(self).nodes@.len() as int),
            decreases p.children@.len() - i,
        {
            assert(p@.children[i as int] == p.children@[i as int]@);
            let ghost before = self.nodes@;
            let c = self.add_plan(&p.children[i]);
            assert forall|j: int| 0 <= j < i implies tree_at(self.nodes@, #[trigger] kids@[j] as int)
                == p@.children[j] by {
                lemma_tree_at_extends(self.nodes@, before, kids@[j] as int);
            }
            proof {
                lemma_kids_packed_extends(self.nodes@, before, kids@, i as int, old(self).nodes@.len() as int);
            }
            let ghost kids_before = kids@;
            kids.push(c);
            proof {
                assert forall|j: int| 0 <= j < i + 1 implies #[trigger] packed(
                    self.nodes@,
                    kids@[j] as int,
                    kid_lo(kids@, j, old(self).nodes@.len() as int),
                ) by {
                    if j < i {
                        assert(kids@[j] == kids_before[j]);
                        assert(kid_lo(kids@, j, old(self).nodes@.len() as int) == kid_lo(kids_before, j, old(self).nodes@.len() as int));
                    }
                }
            }
            i += 1;
        }
        let ghost before = self.nodes@;
        let id = self.nodes.len();
        self.nodes.push(HepNode { node: p.clone_with_dummy(), children: kids });
        assert forall|j: int| 0 <= j < kids@.len() implies tree_at(self.nodes@, #[trigger] kids@[j] as int)
            == p@.children[j] by {
            lemma_tree_at_extends(self.nodes@, before, kids@[j] as int);
        }
        assert(tree_at(self.nodes@, id as int).children =~= p@.children);
        proof {
            lemma_kids_packed_extends(self.nodes@, before, kids@, kids@.len() as int, old(self).nodes@.len() as int);
            assert forall|j: int| 0 <= j < kids@.len() implies 0 <= #[trigger] child(self.nodes@, id as int, j)
                < id && packed(
                self.nodes@,
                child(self.nodes@, id as int, j),
                if j == 0 {
                    old(self).nodes@.len() as int
                } else {
                    child(self.nodes@, id as int, j - 1) + 1
                },
            ) by {
                assert(child(self.nodes@, id as int, j) == kids@[j] as int);
                assert(packed(self.nodes@, kids@[j] as int, kid_lo(kids@, j, old(self).nodes@.len() as int)));
            }
        }
        assert(packed(self.nodes@, id as int, old(self).nodes@.len() as int));
        id
    }

    /// The data of node `id`.
    pub fn node(&self, id: HepNodeId) -> (r: &PlanNode)
        requires
            id < self.nodes@.len(),
        ensures
            *r == self.nodes@[id as int].node,
    {
        &self.nodes[id].node
    }

    /// The children ids of node `id`.
    pub fn children(&self, id: HepNodeId) -> (r: &Vec<HepNodeId>)
        requires
            id < self.nodes@.len(),
        ensures
            *r == self.nodes@[id as int].children,
    {
        &self.nodes[id].children
    }

    /// The plan that the graph holds, rebuilt as one tree.
    pub fn to_plan(&self) -> (r: PlanRef)
        requires
            self.wf(),
        ensures
            r@ == self.plan_view(),
    {
        self.build_plan(self.root)
    }

    fn build_plan(&self, id: HepNodeId) -> (r: PlanRef)
        requires
            children_below(self.nodes@),
            id < self.nodes@.len(),
        ensures
            r@ == tree_at(self.nodes@, id as int),
        decreases id,
    {
        let kids = &self.nodes[id].children;
        let mut children: Vec<PlanRef> = Vec::new();
        let mut i: usize = 0;
        while i < kids.len()
            invariant
                children_below(self.nodes@),
                id < self.nodes@.len(),
                kids == self.nodes@[id as int].children,
                i <= kids@.len(),
                children@.len() == i,
                forall|j: int|
                    0 <= j < i ==> (#[trigger] children@[j])@ == tree_at(self.nodes@, kids@[j] as int),
            decreases kids@.len() - i,
        {
            assert(kids@[i as int] < id);
            children.push(self.build_plan(kids[i]));
            i += 1;
        }
        let r = PlanRef::new(self.nodes[id].node.clone(), children);
        assert(r@.children =~= tree_at(self.nodes@, id as int).children);
        r
    }
    /// The ids of the nodes under the root, each once, parents before children
    /// (`TopDown`) or after them (`BottomUp`).
    pub fn nodes_iter(&self, order: HepMatchOrder) -> (r: Vec<HepNodeId>)
        requires
            self.wf(),
        ensures
            r@ == order_at(self.nodes@, self.root as int, order == HepMatchOrder::TopDown),
            forall|lo: int| #[trigger] packed(self.nodes@, self.root as int, lo) ==> r@.no_duplicates(),
    {
        proof {
            assert forall|lo: int| #[trigger] packed(self.nodes@, self.root as int, lo) implies order_at(
                self.nodes@,
                self.root as int,
                order == HepMatchOrder::TopDown,
            ).no_duplicates() by {
                lemma_packed_order(self.nodes@, self.root as int, lo, order == HepMatchOrder::TopDown);
            }
        }
        let mut out: Vec<HepNodeId> = Vec::new();
        let top_down = match order {
            HepMatchOrder::TopDown => true,
            HepMatchOrder::BottomUp => false,
        };
        self.collect_order(self.root, top_down, &mut out);
        assert(out@ =~= order_at(self.nodes@, self.root as int, top_down));
        out
    }

    fn collect_order(&self, id: HepNodeId, top_down: bool, out: &mut Vec<HepNodeId>)
        requires
            children_below(self.nodes@),
            id < self.nodes@.len(),
        ensures
            final(out)@ == old(out)@ + order_at(self.nodes@, id as int, top_down),
        decreases id,
    {
        let ghost start = out@;
        if top_down {
            out.push(id);
        }
        let kids = &self.nodes[id].children;
        let ghost head: Seq<HepNodeId> = if top_down { seq![id] } else { Seq::empty() };
        let mut i: usize = 0;
        while i < kids.len()
            invariant
                children_below(self.nodes@),
                id < self.nodes@.len(),
                kids == self.nodes@[id as int].children,
                i <= kids@.len(),
                out@ == start + head + children_order(self.nodes@, id as int, i as int, top_down),
            decreases kids@.len() - i,
        {
            assert(kids@[i as int] < id);
            let ghost mid = out@;
            self.collect_order(kids[i], top_down, out);
            assert(children_order(self.nodes@, id as int, i + 1, top_down) == children_order(
                self.nodes@,
                id as int,
                i as int,
                top_down,
            ) + order_at(self.nodes@, kids@[i as int] as int, top_down));
            assert(out@ =~= start + head + children_order(self.nodes@, id as int, i + 1, top_down));
            i += 1;
        }
        if !top_down {
            out.push(id);
        }
        assert(out@ =~= start + order_at(self.nodes@, id as int, top_down));
    }

    /// Writes `e` into the graph: each new node gets a fresh id, each graph
    /// reference keeps its own.
    fn add_opt(&mut self, e: &OptExpr) -> (id: HepNodeId)
        requires
            children_below(old(self).nodes@),
            refs_below(e@, old(self).nodes@.len()),
        ensures
            children_below(final(self).nodes@),
            extends(final(self).nodes@, old(self).nodes@),
            final(self).root == old(self).root,
            id < final(self).nodes@.len(),
            tree_at(final(self).nodes@, id as int) == resolve(old(self).nodes@, e@),
            written(final(self).nodes@, old(self).nodes@, id as int, e@),
        decreases e,
    {
        match &e.root {
            OptExprNode::OptExpr(x) => *x,
            OptExprNode::PlanRef(n) => {
                let mut kids: Vec<HepNodeId> = Vec::new();
                let mut i: usize = 0;
                while i < e.children.len()
                    invariant
                        i <= e.children@.len(),
                        kids@.len() == i,
                        e.root == OptExprNode::PlanRef(*n),
                        refs_below(e@, old(self).nodes@.len()),
                        children_below(self.nodes@),
                        extends(self.nodes@, old(self).nodes@),
                        self.root == old(self).root,
                        forall|j: int| 0 <= j < i ==> kids@[j] < self.nodes@.len(),
                        forall|j: int|
                            0 <= j < i ==> written(self.nodes@, old(self).nodes@, #[trigger] kids@[j] as int, e@.children[j]),
                        forall|j: int|
                            0 <= j < i ==> tree_at(self.nodes@, #[trigger] kids@[j] as int) == resolve(
                                old(self).nodes@,
                                e@.children[j],
                            ),
                    decreases e.children@.len() - i,
                {
                    assert(e@.children[i as int] == e.children@[i as int]@);
                    let ghost before = self.nodes@;
                    proof {
                        lemma_refs_below_mono(e@.children[i as int], old(self).nodes@.len(), before.len());
                        lemma_resolve_extends(before, old(self).nodes@, e@.children[i as int]);
                    }
                    let c = self.add_opt(&e.children[i]);
                    assert forall|j: int| 0 <= j < i implies tree_at(self.nodes@, #[trigger] kids@[j] as int)
                        == resolve(old(self).nodes@, e@.children[j]) by {
                        lemma_tree_at_extends(self.nodes@, before, kids@[j] as int);
                    }
                    assert forall|j: int| 0 <= j < i implies written(self.nodes@, old(self).nodes@, #[trigger] kids@[j] as int, e@.children[j]) by {
                        lemma_written_extends(self.nodes@, before, old(self).nodes@, kids@[j] as int, e@.children[j]);
                    }
                    proof {
                        lemma_written_older(self.nodes@, before, old(self).nodes@, c as int, e@.children[i as int]);
                    }
                    kids.push(c);
                    i += 1;
                }
                let ghost before = self.nodes@;
                let id = self.nodes.len();
                self.nodes.push(HepNode { node: n.clone(), children: kids });
                assert forall|j: int| 0 <= j < kids@.len() implies tree_at(self.nodes@, #[trigger] kids@[j] as int)
                    == resolve(old(self).nodes@, e@.children[j]) by {
                    lemma_tree_at_extends(self.nodes@, before, kids@[j] as int);
                }
                assert forall|j: int| 0 <= j < kids@.len() implies written(self.nodes@, old(self).nodes@, child(self.nodes@, id as int, j), #[trigger] e@.children[j]) by {
                    assert(child(self.nodes@, id as int, j) == kids@[j] as int);
                    lemma_written_extends(self.nodes@, before, old(self).nodes@, kids@[j] as int, e@.children[j]);
                }
                assert(tree_at(self.nodes@, id as int).children =~= resolve(old(self).nodes@, e@).children);
                id
            },
        }
    }

    /// Rewrites the subtree at node `id` to match `new_subtree`. New nodes get
    /// fresh ids, graph references keep theirs, and each ancestor of `id` is
    /// copied under a fresh id that points at the copy below it; all other
    /// nodes keep their ids.
    pub fn replace_node(&mut self, id: HepNodeId, new_subtree: OptExpr)
        requires
            old(self).wf(),
            id < old(self).nodes@.len(),
            refs_below(new_subtree@, old(self).nodes@.len()),
        ensures
            final(self).wf(),
            extends(final(self).nodes@, old(self).nodes@),
            final(self).plan_view() == replaced(
                old(self).nodes@,
                old(self).root as int,
                id as int,
                resolve(old(self).nodes@, new_subtree@),
            ),
            exists|sub_root: int|
                #[trigger] written(final(self).nodes@, old(self).nodes@, sub_root, new_subtree@)
                    && path_copied(
                    final(self).nodes@,
                    old(self).nodes@,
                    final(self).root as int,
                    old(self).root as int,
                    id as int,
                    sub_root,
                ),
    {
        let ghost g0 = self.nodes@;
        let new_id = self.add_opt(&new_subtree);
        let ghost t = tree_at(self.nodes@, new_id as int);
        let ghost after_add = self.nodes@;
        match self.replace_at(self.root, id, new_id, Ghost(g0), Ghost(t)) {
            Some(n) => {
                self.root = n;
            },
            None => {
                proof {
                    lemma_replaced_absent(g0, self.root as int, id as int, t);
                    lemma_tree_at_extends(self.nodes@, g0, self.root as int);
                }
            },
        }
        proof {
            lemma_written_extends(self.nodes@, after_add, g0, new_id as int, new_subtree@);
            assert(written(self.nodes@, g0, new_id as int, new_subtree@));
        }
    }

    fn replace_at(
        &mut self,
        cur: HepNodeId,
        target: HepNodeId,
        new_id: HepNodeId,
        g0: Ghost<Seq<HepNode>>,
        t: Ghost<PlanTree>,
    ) -> (r: Option<HepNodeId>)
        requires
            children_below(g0@),
            children_below(old(self).nodes@),
            extends(old(self).nodes@, g0@),
            cur < g0@.len(),
            new_id < old(self).nodes@.len(),
            tree_at(old(self).nodes@, new_id as int) == t@,
        ensures
            children_below(final(self).nodes@),
            extends(final(self).nodes@, old(self).nodes@),
            final(self).root == old(self).root,
            r is None ==> final(self).nodes@ == old(self).nodes@ && !contains(
                g0@,
                cur as int,
                target as int,
            ),
            r matches Some(n) ==> n < final(self).nodes@.len() && tree_at(final(self).nodes@, n as int)
                == replaced(g0@, cur as int, target as int, t@) && contains(g0@, cur as int, target as int)
                && path_copied(final(self).nodes@, g0@, n as int, cur as int, target as int, new_id as int),
        decreases cur,
    {
        if cur == target {
            return Some(new_id);
        }
        let ghost start = self.nodes@;
        let n_kids = self.nodes[cur].children.len();
        let mut kids: Vec<HepNodeId> = Vec::new();
        let mut changed = false;
        let mut i: usize = 0;
        while i < n_kids
            invariant
                children_below(g0@),
                children_below(self.nodes@),
                extends(self.nodes@, start),
                extends(start, g0@),
                start == old(self).nodes@,
                self.root == old(self).root,
                cur < g0@.len(),
                cur != target,
                n_kids == g0@[cur as int].children@.len(),
                new_id < start.len(),
                tree_at(start, new_id as int) == t@,
                i <= n_kids,
                kids@.len() == i,
                !changed ==> self.nodes@ == start,
                changed == exists|j: int|
                    0 <= j < i && contains(g0@, #[trigger] child(g0@, cur as int, j), target as int),
                forall|j: int| 0 <= j < i ==> kids@[j] < self.nodes@.len(),
                forall|j: int|
                    0 <= j < i ==> path_copied(
                        self.nodes@,
                        g0@,
                        #[trigger] kids@[j] as int,
                        child(g0@, cur as int, j),
                        target as int,
                        new_id as int,
                    ),
                forall|j: int|
                    0 <= j < i ==> tree_at(self.nodes@, #[trigger] kids@[j] as int) == replaced(
                        g0@,
                        child(g0@, cur as int, j),
                        target as int,
                        t@,
                    ),
            decreases n_kids - i,
        {
            let c = self.nodes[cur].children[i];
            assert(c == child(g0@, cur as int, i as int));
            assert(c < cur);
            let ghost before = self.nodes@;
            proof {
                lemma_tree_at_extends(before, start, new_id as int);
            }
            match self.replace_at(c, target, new_id, g0, t) {
                Some(n) => {
                    kids.push(n);
                    changed = true;
                    assert(contains(g0@, child(g0@, cur as int, i as int), target as int));
                },
                None => {
                    proof {
                        lemma_replaced_absent(g0@, c as int, target as int, t@);
                        lemma_tree_at_extends(self.nodes@, g0@, c as int);
                    }
                    kids.push(c);
                },
            }
            assert forall|j: int| 0 <= j < i implies tree_at(self.nodes@, #[trigger] kids@[j] as int)
                == replaced(g0@, child(g0@, cur as int, j), target as int, t@) by {
                lemma_tree_at_extends(self.nodes@, before, kids@[j] as int);
            }
            assert forall|j: int| 0 <= j < i implies path_copied(
                self.nodes@,
                g0@,
                #[trigger] kids@[j] as int,
                child(g0@, cur as int, j),
                target as int,
                new_id as int,
            ) by {
                lemma_path_copied_extends(self.nodes@, before, g0@, kids@[j] as int, child(g0@, cur as int, j), target as int, new_id as int);
            }
            i += 1;
        }
        if !changed {
            assert(!contains(g0@, cur as int, target as int));
            return None;
        }
        let ghost before = self.nodes@;
        let node = self.nodes[cur].node.clone();
        let id = self.nodes.len();
        self.nodes.push(HepNode { node, children: kids });
        assert forall|j: int| 0 <= j < kids@.len() implies tree_at(self.nodes@, #[trigger] kids@[j] as int)
            == replaced(g0@, child(g0@, cur as int, j), target as int, t@) by {
            lemma_tree_at_extends(self.nodes@, before, kids@[j] as int);
        }
        assert forall|j: int| 0 <= j < kids@.len() implies 0 <= #[trigger] child(g0@, cur as int, j)
            < cur && path_copied(
            self.nodes@,
            g0@,
            child(self.nodes@, id as int, j),
            child(g0@, cur as int, j),
            target as int,
            new_id as int,
        ) by {
            assert(child(self.nodes@, id as int, j) == kids@[j] as int);
            lemma_path_copied_extends(self.nodes@, before, g0@, kids@[j] as int, child(g0@, cur as int, j), target as int, new_id as int);
        }
        assert(tree_at(self.nodes@, id as int).children =~= replaced(
            g0@,
            cur as int,
            target as int,
            t@,
        ).children);
        Some(id)
    }
    /// The output columns of the subtree at `id`.
    pub fn schema_of(&self, id: HepNodeId) -> (r: Vec<ColumnCatalog>)
        requires
            children_below(self.nodes@),
            id < self.nodes@.len(),
        ensures
            r@ == tree_schema(tree_at(self.nodes@, id as int)),
        decreases id,
    {
        match self.nodes[id].node.own_schema() {
            Some(v) => v,
            None => {
                let kids = &self.nodes[id].children;
                if kids.len() > 0 {
                    assert(kids@[0] < id);
                    self.schema_of(kids[0])
                } else {
                    Vec::new()
                }
            },
        }
    }
}

} // verus!
