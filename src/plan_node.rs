use vstd::prelude::*;
use std::sync::Arc;
use crate::expr::BoundExpr;
use crate::types::ColumnCatalog;

verus! {

/// The kind of a plan node.
#[derive(Debug, Clone, Copy, PartialEq, Eq, Structural)]
pub enum PlanNodeType {
    Dummy,
    LogicalTableScan,
    LogicalFilter,
    LogicalProject,
    LogicalLimit,
    LogicalOrder,
    PhysicalTableScan,
    PhysicalFilter,
    PhysicalProject,
    PhysicalLimit,
    PhysicalOrder,
}

/// A placeholder node: it stands for a child that is not materialised.
#[derive(Debug, Clone, Copy, PartialEq, Eq, Structural)]
pub struct Dummy {}

/// Reads all columns of one table.
#[derive(Debug, Clone, PartialEq)]
pub struct LogicalTableScan {
    pub table_id: String,
    pub columns: Vec<ColumnCatalog>,
}

/// Keeps the input rows for which the predicate holds.
#[derive(Debug, Clone, PartialEq)]
pub struct LogicalFilter {
    pub expr: BoundExpr,
}

/// Computes one output column per expression.
#[derive(Debug, Clone, PartialEq)]
pub struct LogicalProject {
    pub exprs: Vec<BoundExpr>,
}

/// Skips `offset` rows and keeps at most `limit` rows of the input.
#[derive(Debug, Clone, PartialEq)]
pub struct LogicalLimit {
    pub limit: Option<BoundExpr>,
    pub offset: Option<BoundExpr>,
}

/// One sort key of an order node.
#[derive(Debug, Clone, PartialEq)]
pub struct BoundOrderBy {
    pub expr: BoundExpr,
    pub asc: bool,
}

/// Sorts the input rows by the keys, the first key first.
#[derive(Debug, Clone, PartialEq)]
pub struct LogicalOrder {
    pub order_by: Vec<BoundOrderBy>,
}

#[derive(Debug, Clone, PartialEq)]
pub struct PhysicalTableScan {
    logical: Arc<LogicalTableScan>,
}

#[derive(Debug, Clone, PartialEq)]
pub struct PhysicalFilter {
    logical: Arc<LogicalFilter>,
}

#[derive(Debug, Clone, PartialEq)]
pub struct PhysicalProject {
    logical: Arc<LogicalProject>,
}

#[derive(Debug, Clone, PartialEq)]
pub struct PhysicalLimit {
    logical: Arc<LogicalLimit>,
}

#[derive(Debug, Clone, PartialEq)]
pub struct PhysicalOrder {
    logical: Arc<LogicalOrder>,
}

impl LogicalLimit {
    pub fn new(limit: Option<BoundExpr>, offset: Option<BoundExpr>) -> (r: Self)
        ensures
            r.limit == limit,
            r.offset == offset,
    {
        LogicalLimit { limit, offset }
    }

    pub fn limit(&self) -> (r: Option<BoundExpr>)
        ensures
            r == self.limit,
    {
        self.limit.clone()
    }

    pub fn offset(&self) -> (r: Option<BoundExpr>)
        ensures
            r == self.offset,
    {
        self.offset.clone()
    }
}

impl PhysicalTableScan {
    pub closed spec fn spec_logical(&self) -> LogicalTableScan {
        *self.logical
    }

    pub fn new(logical: Arc<LogicalTableScan>) -> (r: Self)
        ensures
            r.spec_logical() == *logical,
    {
        PhysicalTableScan { logical }
    }

    pub fn logical(&self) -> (r: &LogicalTableScan)
        ensures
            *r == self.spec_logical(),
    {
        &self.logical
    }
}

impl PhysicalFilter {
    pub closed spec fn spec_logical(&self) -> LogicalFilter {
        *self.logical
    }

    pub fn new(logical: Arc<LogicalFilter>) -> (r: Self)
        ensures
            r.spec_logical() == *logical,
    {
        PhysicalFilter { logical }
    }

    pub fn logical(&self) -> (r: &LogicalFilter)
        ensures
            *r == self.spec_logical(),
    {
        &self.logical
    }
}

impl PhysicalProject {
    pub closed spec fn spec_logical(&self) -> LogicalProject {
        *self.logical
    }

    pub fn new(logical: Arc<LogicalProject>) -> (r: Self)
        ensures
            r.spec_logical() == *logical,
    {
        PhysicalProject { logical }
    }

    pub fn logical(&self) -> (r: &LogicalProject)
        ensures
            *r == self.spec_logical(),
    {
        &self.logical
    }
}

impl PhysicalLimit {
    pub closed spec fn spec_logical(&self) -> LogicalLimit {
        *self.logical
    }

    pub fn new(logical: Arc<LogicalLimit>) -> (r: Self)
        ensures
            r.spec_logical() == *logical,
    {
        PhysicalLimit { logical }
    }

    pub fn logical(&self) -> (r: &LogicalLimit)
        ensures
            *r == self.spec_logical(),
    {
        &self.logical
    }
}

impl PhysicalOrder {
    pub closed spec fn spec_logical(&self) -> LogicalOrder {
        *self.logical
    }

    pub fn new(logical: LogicalOrder) -> (r: Self)
        ensures
            r.spec_logical() == logical,
    {
        PhysicalOrder { logical: Arc::new(logical) }
    }

    /// The physical counterpart of a shared logical order node.
    pub fn new_shared(logical: Arc<LogicalOrder>) -> (r: Self)
        ensures
            r.spec_logical() == *logical,
    {
        PhysicalOrder { logical }
    }

    pub fn logical(&self) -> (r: &LogicalOrder)
        ensures
            *r == self.spec_logical(),
    {
        &self.logical
    }
}

/// The data of one plan node, without its children.
#[derive(Debug, PartialEq)]
pub enum PlanNode {
    Dummy(Dummy),
    LogicalTableScan(Arc<LogicalTableScan>),
    LogicalFilter(Arc<LogicalFilter>),
    LogicalProject(Arc<LogicalProject>),
    LogicalLimit(Arc<LogicalLimit>),
    LogicalOrder(Arc<LogicalOrder>),
    PhysicalTableScan(PhysicalTableScan),
    PhysicalFilter(PhysicalFilter),
    PhysicalProject(PhysicalProject),
    PhysicalLimit(PhysicalLimit),
    PhysicalOrder(PhysicalOrder),
}

impl Clone for PlanNode {
    /// Shares the node's data: the copy equals the node it was made from.
    fn clone(&self) -> (r: Self)
        ensures
            r == *self,
    {
        match self {
            PlanNode::Dummy(d) => PlanNode::Dummy(*d),
            PlanNode::LogicalTableScan(p) => PlanNode::LogicalTableScan(p.clone()),
            PlanNode::LogicalFilter(p) => PlanNode::LogicalFilter(p.clone()),
            PlanNode::LogicalProject(p) => PlanNode::LogicalProject(p.clone()),
            PlanNode::LogicalLimit(p) => PlanNode::LogicalLimit(p.clone()),
            PlanNode::LogicalOrder(p) => PlanNode::LogicalOrder(p.clone()),
            PlanNode::PhysicalTableScan(p) => PlanNode::PhysicalTableScan(
                PhysicalTableScan { logical: p.logical.clone() },
            ),
            PlanNode::PhysicalFilter(p) => PlanNode::PhysicalFilter(
                PhysicalFilter { logical: p.logical.clone() },
            ),
            PlanNode::PhysicalProject(p) => PlanNode::PhysicalProject(
                PhysicalProject { logical: p.logical.clone() },
            ),
            PlanNode::PhysicalLimit(p) => PlanNode::PhysicalLimit(
                PhysicalLimit { logical: p.logical.clone() },
            ),
            PlanNode::PhysicalOrder(p) => PlanNode::PhysicalOrder(
                PhysicalOrder { logical: p.logical.clone() },
            ),
        }
    }
}

impl PlanNode {
    pub open spec fn spec_node_type(&self) -> PlanNodeType {
        match self {
            PlanNode::Dummy(_) => PlanNodeType::Dummy,
            PlanNode::LogicalTableScan(_) => PlanNodeType::LogicalTableScan,
            PlanNode::LogicalFilter(_) => PlanNodeType::LogicalFilter,
            PlanNode::LogicalProject(_) => PlanNodeType::LogicalProject,
            PlanNode::LogicalLimit(_) => PlanNodeType::LogicalLimit,
            PlanNode::LogicalOrder(_) => PlanNodeType::LogicalOrder,
            PlanNode::PhysicalTableScan(_) => PlanNodeType::PhysicalTableScan,
            PlanNode::PhysicalFilter(_) => PlanNodeType::PhysicalFilter,
            PlanNode::PhysicalProject(_) => PlanNodeType::PhysicalProject,
            PlanNode::PhysicalLimit(_) => PlanNodeType::PhysicalLimit,
            PlanNode::PhysicalOrder(_) => PlanNodeType::PhysicalOrder,
        }
    }

    pub fn node_type(&self) -> (r: PlanNodeType)
        ensures
            r == self.spec_node_type(),
    {
        match self {
            PlanNode::Dummy(_) => PlanNodeType::Dummy,
            PlanNode::LogicalTableScan(_) => PlanNodeType::LogicalTableScan,
            PlanNode::LogicalFilter(_) => PlanNodeType::LogicalFilter,
            PlanNode::LogicalProject(_) => PlanNodeType::LogicalProject,
            PlanNode::LogicalLimit(_) => PlanNodeType::LogicalLimit,
            PlanNode::LogicalOrder(_) => PlanNodeType::LogicalOrder,
            PlanNode::PhysicalTableScan(_) => PlanNodeType::PhysicalTableScan,
            PlanNode::PhysicalFilter(_) => PlanNodeType::PhysicalFilter,
            PlanNode::PhysicalProject(_) => PlanNodeType::PhysicalProject,
            PlanNode::PhysicalLimit(_) => PlanNodeType::PhysicalLimit,
            PlanNode::PhysicalOrder(_) => PlanNodeType::PhysicalOrder,
        }
    }

    /// The number of inputs that a node of this kind reads: none for a scan or a
    /// placeholder, one for every other node.
    pub open spec fn spec_arity(&self) -> nat {
        match self {
            PlanNode::Dummy(_) | PlanNode::LogicalTableScan(_) | PlanNode::PhysicalTableScan(_) => 0,
            _ => 1,
        }
    }

    /// The columns that the node itself defines: a scan's columns, else none.
    pub open spec fn own_columns(&self) -> Option<Seq<ColumnCatalog>> {
        match self {
            PlanNode::Dummy(_) => Some(Seq::empty()),
            PlanNode::LogicalTableScan(s) => Some(s.columns@),
            PlanNode::PhysicalTableScan(s) => Some(s.spec_logical().columns@),
            _ => None,
        }
    }

    /// Copies the columns that the node itself defines, if it defines its schema.
    pub fn own_schema(&self) -> (r: Option<Vec<ColumnCatalog>>)
        ensures
            r matches Some(v) ==> self.own_columns() == Some(v@),
            r is None ==> self.own_columns() is None,
    {
        match self {
            PlanNode::Dummy(_) => Some(Vec::new()),
            PlanNode::LogicalTableScan(s) => Some(crate::types::copy_columns(&s.columns)),
            PlanNode::PhysicalTableScan(s) => Some(crate::types::copy_columns(&s.logical().columns)),
            _ => None,
        }
    }
}

/// A plan tree as a mathematical value: a node and its ordered children.
pub ghost struct PlanTree {
    pub node: PlanNode,
    pub children: Seq<PlanTree>,
}

/// The output columns of a plan tree: a scan's columns; other nodes pass on
/// those of their first input.
pub open spec fn tree_schema(t: PlanTree) -> Seq<ColumnCatalog>
    decreases t,
{
    match t.node.own_columns() {
        Some(cols) => cols,
        None => if t.children.len() > 0 {
            tree_schema(t.children[0])
        } else {
            Seq::empty()
        },
    }
}

/// A plan tree: a node and the plans of its inputs, in operand order.
#[derive(Debug, PartialEq)]
pub struct PlanRef {
    pub node: PlanNode,
    pub children: Vec<PlanRef>,
}

/// The mathematical value of a plan.
pub open spec fn plan_tree(p: PlanRef) -> PlanTree
    decreases p,
{
    PlanTree {
        node: p.node,
        children: Seq::new(
            p.children@.len(),
            |i: int|
                if 0 <= i < p.children@.len() {
                    plan_tree(p.children@[i])
                } else {
                    PlanTree { node: p.node, children: Seq::empty() }
                },
        ),
    }
}

impl View for PlanRef {
    type V = PlanTree;

    open spec fn view(&self) -> PlanTree {
        plan_tree(*self)
    }
}

impl PlanRef {
    pub fn new(node: PlanNode, children: Vec<PlanRef>) -> (r: Self)
        ensures
            r.node == node,
            r.children == children,
    {
        PlanRef { node, children }
    }

    pub fn node_type(&self) -> (r: PlanNodeType)
        ensures
            r == self@.node.spec_node_type(),
    {
        self.node.node_type()
    }

    /// The node's data with its children left out.
    pub fn clone_with_dummy(&self) -> (r: PlanNode)
        ensures
            r == self@.node,
    {
        self.node.clone()
    }

    /// A plan with this node's data over the given children.
    pub fn clone_with_children(&self, children: Vec<PlanRef>) -> (r: PlanRef)
        requires
            children@.len() == self.node.spec_arity(),
        ensures
            r.node == self.node,
            r.children == children,
    {
        PlanRef { node: self.node.clone(), children }
    }

    /// The plan's output columns.
    pub fn schema(&self) -> (r: Vec<ColumnCatalog>)
        ensures
            r@ == tree_schema(self@),
        decreases self,
    {
        match self.node.own_schema() {
            Some(v) => v,
            None => {
                if self.children.len() > 0 {
                    assert(self@.children[0] == self.children@[0]@);
                    self.children[0].schema()
                } else {
                    Vec::new()
                }
            },
        }
    }
}

} // verus!
