use vstd::prelude::*;
use std::sync::Arc;
use crate::expr::BoundExpr;
use crate::plan_node::{
    BoundOrderBy, Dummy, LogicalFilter, LogicalLimit, LogicalOrder, LogicalProject, LogicalTableScan,
    PlanNode, PlanNodeType, PlanRef, PlanTree, tree_schema,
};
use crate::types::ColumnCatalog;

verus! {

/// A table as the binder saw it: its id, its name and its columns in order.
#[derive(Debug)]
pub struct TableCatalog {
    pub id: String,
    pub name: String,
    pub columns: Vec<ColumnCatalog>,
}

/// A table that a query reads from.
#[derive(Debug)]
pub enum BoundTableRef {
    Table { table_catalog: TableCatalog },
}

/// A bound `SELECT` statement.
#[derive(Debug)]
pub struct BoundSelect {
    pub select_list: Vec<BoundExpr>,
    pub from_table: Option<BoundTableRef>,
    pub where_clause: Option<BoundExpr>,
    pub group_by: Vec<BoundExpr>,
    pub limit: Option<BoundExpr>,
    pub offset: Option<BoundExpr>,
    pub order_by: Vec<BoundOrderBy>,
}

/// A bound statement.
#[derive(Debug)]
pub enum BoundStatement {
    Select(BoundSelect),
}

/// Errors of logical planning. Every statement kind that binds has a plan, so
/// `plan` never returns one today; the type keeps room for kinds without one.
#[derive(Debug, PartialEq, Eq, Structural)]
pub enum LogicalPlanError {
    UnsupportedStatement,
}

/// Turns bound statements into logical plans.
pub struct Planner {}

/// The node types along the first inputs of a plan, from the root down.
pub open spec fn spine(t: PlanTree) -> Seq<PlanNodeType>
    decreases t,
{
    if t.children.len() == 0 {
        seq![t.node.spec_node_type()]
    } else {
        seq![t.node.spec_node_type()] + spine(t.children[0])
    }
}

/// The node types of the plan of `s`, from the root down: a limit where there
/// is a limit or an offset, an order where there are sort keys, the projection,
/// a filter where there is a predicate, and the scan (or a placeholder where
/// there is no table).
pub open spec fn select_spine(s: BoundSelect) -> Seq<PlanNodeType> {
    let leaf = if s.from_table is Some {
        seq![PlanNodeType::LogicalTableScan]
    } else {
        seq![PlanNodeType::Dummy]
    };
    let filter = if s.where_clause is Some {
        seq![PlanNodeType::LogicalFilter]
    } else {
        Seq::empty()
    };
    let order = if s.order_by@.len() > 0 {
        seq![PlanNodeType::LogicalOrder]
    } else {
        Seq::empty()
    };
    let limit = if s.limit is Some || s.offset is Some {
        seq![PlanNodeType::LogicalLimit]
    } else {
        Seq::empty()
    };
    limit + order + seq![PlanNodeType::LogicalProject] + filter + leaf
}

/// The plan reached from `t` by following first inputs `d` times.
pub open spec fn descend(t: PlanTree, d: nat) -> PlanTree
    decreases d,
{
    if d == 0 {
        t
    } else if t.children.len() > 0 {
        descend(t.children[0], (d - 1) as nat)
    } else {
        t
    }
}

/// The nodes of the plan of `s` hold the statement's parts: the limit and
/// offset at the limit node, the sort keys at the order node, the select list
/// at the projection, the predicate at the filter, and the table at the scan.
pub open spec fn holds_select(t: PlanTree, s: BoundSelect) -> bool {
    let has_limit = s.limit is Some || s.offset is Some;
    let has_order = s.order_by@.len() > 0;
    let d_order: nat = if has_limit { 1nat } else { 0nat };
    let d_project: nat = d_order + (if has_order { 1nat } else { 0nat });
    let d_leaf: nat = d_project + 1 + (if s.where_clause is Some { 1nat } else { 0nat });
    &&& has_limit ==> (t.node matches PlanNode::LogicalLimit(l) && l.limit == s.limit && l.offset
        == s.offset)
    &&& has_order ==> (descend(t, d_order) matches PlanTree { node: PlanNode::LogicalOrder(o), .. }
        && o.order_by == s.order_by)
    &&& descend(t, d_project).node matches PlanNode::LogicalProject(p) && p.exprs == s.select_list
    &&& (s.where_clause matches Some(w) ==> descend(t, d_project + 1).node matches PlanNode::LogicalFilter(f)
        && f.expr == w)
    &&& (s.from_table matches Some(BoundTableRef::Table { table_catalog }) ==> descend(t, d_leaf).node
        matches PlanNode::LogicalTableScan(scan) && scan.table_id == table_catalog.id && scan.columns
        == table_catalog.columns)
    &&& descend(t, d_leaf).children.len() == 0
}

/// The columns that the statement's table provides.
pub open spec fn select_columns(s: BoundSelect) -> Seq<ColumnCatalog> {
    match s.from_table {
        Some(BoundTableRef::Table { table_catalog }) => table_catalog.columns@,
        None => Seq::empty(),
    }
}

/// A plan of one node over one input.
fn over(node: PlanNode, input: PlanRef) -> (r: PlanRef)
    ensures
        r@.node == node,
        r@.children.len() == 1,
        r@.children[0] == input@,
        spine(r@) == seq![node.spec_node_type()] + spine(input@),
        node.own_columns() is None ==> tree_schema(r@) == tree_schema(input@),
{
    let r = PlanRef::new(node, vec![input]);
    assert(r@.children[0] == input@);
    r
}

/// Following first inputs from a plan with one input goes through that input.
proof fn lemma_descend_steps(t: PlanTree)
    requires
        t.children.len() == 1,
    ensures
        descend(t, 0) == t,
        forall|d: nat| d < 5 ==> #[trigger] descend(t, d + 1) == descend(t.children[0], d),
{
    assert forall|d: nat| d < 5 implies #[trigger] descend(t, d + 1) == descend(t.children[0], d) by {
    }
}

impl Planner {
    /// The logical plan of a statement.
    pub fn plan(&self, stmt: BoundStatement) -> (r: Result<PlanRef, LogicalPlanError>)
        ensures
            r matches Ok(p) && match stmt {
                BoundStatement::Select(s) => spine(p@) == select_spine(s) && tree_schema(p@)
                    == select_columns(s) && holds_select(p@, s),
            },
    {
        match stmt {
            BoundStatement::Select(s) => Ok(self.plan_select(s)),
        }
    }

    fn plan_select(&self, s: BoundSelect) -> (r: PlanRef)
        ensures
            spine(r@) == select_spine(s),
            tree_schema(r@) == select_columns(s),
            holds_select(r@, s),
    {
        let ghost s0 = s;
        let BoundSelect { select_list, from_table, where_clause, group_by: _, limit, offset, order_by } =
            s;
        let mut plan = match from_table {
            Some(BoundTableRef::Table { table_catalog }) => {
                let scan = LogicalTableScan { table_id: table_catalog.id, columns: table_catalog.columns };
                PlanRef::new(PlanNode::LogicalTableScan(Arc::new(scan)), Vec::new())
            },
            None => PlanRef::new(PlanNode::Dummy(Dummy {}), Vec::new()),
        };
        assert(plan@.children.len() == 0);
        assert(spine(plan@) == seq![plan@.node.spec_node_type()]);
        assert(tree_schema(plan@) == select_columns(s0));
        if let Some(expr) = where_clause {
            plan = over(PlanNode::LogicalFilter(Arc::new(LogicalFilter { expr })), plan);
            proof {
                lemma_descend_steps(plan@);
            }
        }
        plan = over(PlanNode::LogicalProject(Arc::new(LogicalProject { exprs: select_list })), plan);
        proof {
            lemma_descend_steps(plan@);
        }
        if order_by.len() > 0 {
            plan = over(PlanNode::LogicalOrder(Arc::new(LogicalOrder { order_by })), plan);
            proof {
                lemma_descend_steps(plan@);
            }
        }
        if limit.is_some() || offset.is_some() {
            plan = over(PlanNode::LogicalLimit(Arc::new(LogicalLimit::new(limit, offset))), plan);
            proof {
                lemma_descend_steps(plan@);
            }
        }
        assert(spine(plan@) =~= select_spine(s0));
        plan
    }
}

} // verus!
