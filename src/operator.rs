use vstd::prelude::*;
use crate::catalog::{ColumnDefinition, TableCatalogEntry};
use crate::logical_type::LogicalType;

verus! {

/// A base table that a statement reads: its catalog entry and the operator that reads it.
#[derive(Debug)]
pub struct BoundBaseTableRef {
    pub table: TableCatalogEntry,
    pub get: LogicalOperator,
}

impl BoundBaseTableRef {
    pub fn new(table: TableCatalogEntry, get: LogicalOperator) -> (r: Self)
        ensures
            r.table == table,
            r.get == get,
    {
        BoundBaseTableRef { table, get }
    }
}

/// Names a column of an operator's output: the table index of its source and
/// its position there.
#[derive(Debug, Clone, Copy, PartialEq, Eq, Structural)]
pub struct ColumnBinding {
    pub table_idx: usize,
    pub column_idx: usize,
}

impl ColumnBinding {
    pub fn new(table_idx: usize, column_idx: usize) -> (r: Self)
        ensures
            r.table_idx == table_idx,
            r.column_idx == column_idx,
    {
        ColumnBinding { table_idx, column_idx }
    }
}

/// An expression held by a logical operator, with the type of its value.
#[derive(Debug)]
pub struct BoundExpression {
    pub alias: String,
    pub return_type: LogicalType,
}

impl BoundExpression {
    pub fn return_type(&self) -> (r: LogicalType)
        ensures
            r == self.return_type,
    {
        self.return_type
    }
}

/// What every logical operator holds.
#[derive(Debug)]
pub struct LogicalOperatorBase {
    pub children: Vec<LogicalOperator>,
    /// The expressions that the operator holds, if any.
    pub expressioins: Vec<BoundExpression>,
    /// The types of the operator's output columns.
    pub types: Vec<LogicalType>,
}

impl LogicalOperatorBase {
    pub fn new(
        children: Vec<LogicalOperator>,
        expressioins: Vec<BoundExpression>,
        types: Vec<LogicalType>,
    ) -> (r: Self)
        ensures
            r.children == children,
            r.expressioins == expressioins,
            r.types == types,
    {
        LogicalOperatorBase { children, expressioins, types }
    }
}

#[derive(Debug)]
pub struct LogicalCreateTable {
    pub base: LogicalOperatorBase,
    pub schema: String,
    pub table: String,
    pub columns: Vec<ColumnDefinition>,
}

/// Rows given as lists of expressions (a `VALUES` list).
#[derive(Debug)]
pub struct LogicalExpressionGet {
    pub base: LogicalOperatorBase,
    pub table_idx: usize,
    pub expr_types: Vec<LogicalType>,
    pub expressions: Vec<Vec<BoundExpression>>,
}

#[derive(Debug)]
pub struct LogicalInsert {
    pub base: LogicalOperatorBase,
    pub column_index_list: Vec<usize>,
    pub expected_types: Vec<LogicalType>,
    pub table: TableCatalogEntry,
}

/// Reads a table.
#[derive(Debug)]
pub struct LogicalGet {
    pub base: LogicalOperatorBase,
    pub table_idx: usize,
    pub returned_types: Vec<LogicalType>,
    pub names: Vec<String>,
}

#[derive(Debug)]
pub struct LogicalProjection {
    pub base: LogicalOperatorBase,
    pub table_idx: usize,
}

/// A logical operator of a bound statement.
#[derive(Debug)]
pub enum LogicalOperator {
    LogicalCreateTable(LogicalCreateTable),
    LogicalExpressionGet(LogicalExpressionGet),
    LogicalInsert(LogicalInsert),
    LogicalGet(LogicalGet),
    LogicalProjection(LogicalProjection),
}

/// The bindings `(table_idx, 0)`, ..., `(table_idx, column_count - 1)`.
pub open spec fn column_bindings(table_idx: usize, column_count: nat) -> Seq<ColumnBinding> {
    Seq::new(column_count, |i: int| ColumnBinding { table_idx, column_idx: i as usize })
}

/// The types that an operator has once resolved, given what it had before.
pub open spec fn resolved_types(op: LogicalOperator) -> Seq<LogicalType> {
    match op {
        LogicalOperator::LogicalCreateTable(o) => o.base.types@.push(LogicalType::Bigint),
        LogicalOperator::LogicalExpressionGet(o) => o.expr_types@,
        LogicalOperator::LogicalInsert(o) => o.base.types@.push(LogicalType::Bigint),
        LogicalOperator::LogicalGet(o) => o.base.types@ + o.returned_types@,
        LogicalOperator::LogicalProjection(o) => o.base.types@ + o.base.expressioins@.map_values(
            |e: BoundExpression| e.return_type,
        ),
    }
}

/// Whether two operators are of the same kind and agree on all fields but their bases.
pub open spec fn same_fields(a: LogicalOperator, b: LogicalOperator) -> bool {
    match (a, b) {
        (LogicalOperator::LogicalCreateTable(x), LogicalOperator::LogicalCreateTable(y)) => x.schema
            == y.schema && x.table == y.table && x.columns == y.columns,
        (LogicalOperator::LogicalExpressionGet(x), LogicalOperator::LogicalExpressionGet(y)) => x.table_idx
            == y.table_idx && x.expr_types == y.expr_types && x.expressions == y.expressions,
        (LogicalOperator::LogicalInsert(x), LogicalOperator::LogicalInsert(y)) => x.column_index_list
            == y.column_index_list && x.expected_types == y.expected_types && x.table == y.table,
        (LogicalOperator::LogicalGet(x), LogicalOperator::LogicalGet(y)) => x.table_idx == y.table_idx
            && x.returned_types == y.returned_types && x.names == y.names,
        (LogicalOperator::LogicalProjection(x), LogicalOperator::LogicalProjection(y)) => x.table_idx
            == y.table_idx,
        _ => false,
    }
}

/// `new` is `old` with the output types of it and of every operator under it
/// filled in, and nothing else changed.
pub open spec fn is_resolved(old: LogicalOperator, new: LogicalOperator) -> bool
    decreases old,
{
    same_fields(old, new) && new.spec_base().types@ == resolved_types(old) && new.spec_base().expressioins
        == old.spec_base().expressioins && new.spec_base().children@.len()
        == old.spec_base().children@.len() && forall|i: int|
        0 <= i < old.spec_base().children@.len() ==> is_resolved(
            old.spec_base().children@[i],
            #[trigger] new.spec_base().children@[i],
        )
}

impl LogicalOperator {
    pub open spec fn spec_base(&self) -> LogicalOperatorBase {
        match self {
            LogicalOperator::LogicalCreateTable(o) => o.base,
            LogicalOperator::LogicalExpressionGet(o) => o.base,
            LogicalOperator::LogicalInsert(o) => o.base,
            LogicalOperator::LogicalGet(o) => o.base,
            LogicalOperator::LogicalProjection(o) => o.base,
        }
    }

    /// What `get_column_bindings` returns.
    pub open spec fn spec_column_bindings(&self) -> Seq<ColumnBinding> {
        match self {
            LogicalOperator::LogicalExpressionGet(o) => column_bindings(o.table_idx, o.expr_types@.len()),
            LogicalOperator::LogicalGet(o) => column_bindings(o.table_idx, o.returned_types@.len()),
            LogicalOperator::LogicalProjection(o) => column_bindings(
                o.table_idx,
                o.base.expressioins@.len(),
            ),
            _ => seq![ColumnBinding { table_idx: 0, column_idx: 0 }],
        }
    }

    pub fn children(&self) -> (r: &Vec<LogicalOperator>)
        ensures
            *r == self.spec_base().children,
    {
        match self {
            LogicalOperator::LogicalCreateTable(op) => &op.base.children,
            LogicalOperator::LogicalExpressionGet(op) => &op.base.children,
            LogicalOperator::LogicalInsert(op) => &op.base.children,
            LogicalOperator::LogicalGet(op) => &op.base.children,
            LogicalOperator::LogicalProjection(op) => &op.base.children,
        }
    }

    pub fn expressions(&self) -> (r: &Vec<BoundExpression>)
        ensures
            *r == self.spec_base().expressioins,
    {
        match self {
            LogicalOperator::LogicalCreateTable(op) => &op.base.expressioins,
            LogicalOperator::LogicalExpressionGet(op) => &op.base.expressioins,
            LogicalOperator::LogicalInsert(op) => &op.base.expressioins,
            LogicalOperator::LogicalGet(op) => &op.base.expressioins,
            LogicalOperator::LogicalProjection(op) => &op.base.expressioins,
        }
    }

    pub fn types(&self) -> (r: &Vec<LogicalType>)
        ensures
            *r == self.spec_base().types,
    {
        match self {
            LogicalOperator::LogicalCreateTable(op) => &op.base.types,
            LogicalOperator::LogicalExpressionGet(op) => &op.base.types,
            LogicalOperator::LogicalInsert(op) => &op.base.types,
            LogicalOperator::LogicalGet(op) => &op.base.types,
            LogicalOperator::LogicalProjection(op) => &op.base.types,
        }
    }

    /// The bindings of the operator's output columns; operators without a table
    /// index have the single binding `(0, 0)`.
    pub fn get_column_bindings(&self) -> (r: Vec<ColumnBinding>)
        ensures
            r@ == self.spec_column_bindings(),
    {
        match self {
            LogicalOperator::LogicalExpressionGet(op) => self.generate_column_bindings(
                op.table_idx,
                op.expr_types.len(),
            ),
            LogicalOperator::LogicalGet(op) => self.generate_column_bindings(
                op.table_idx,
                op.returned_types.len(),
            ),
            LogicalOperator::LogicalProjection(op) => self.generate_column_bindings(
                op.table_idx,
                op.base.expressioins.len(),
            ),
            _ => vec![ColumnBinding::new(0, 0)],
        }
    }

    fn generate_column_bindings(&self, table_idx: usize, column_count: usize) -> (r: Vec<
        ColumnBinding,
    >)
        ensures
            r@ == column_bindings(table_idx, column_count as nat),
    {
        let mut result: Vec<ColumnBinding> = Vec::new();
        let mut idx: usize = 0;
        while idx < column_count
            invariant
                idx <= column_count,
                result@ == column_bindings(table_idx, idx as nat),
            decreases column_count - idx,
        {
            result.push(ColumnBinding::new(table_idx, idx));
            idx += 1;
            assert(result@ =~= column_bindings(table_idx, idx as nat));
        }
        result
    }

    /// Fills in the output types of the operator and of every operator under it.
    pub fn resolve_operator_types(self) -> (r: LogicalOperator)
        ensures
            is_resolved(self, r),
        decreases self,
    {
        match self {
            LogicalOperator::LogicalCreateTable(op) => {
                let mut op = op;
                let children = resolve_children(op.base.children);
                op.base.children = children;
                op.base.types.push(LogicalType::Bigint);
                LogicalOperator::LogicalCreateTable(op)
            },
            LogicalOperator::LogicalExpressionGet(op) => {
                let mut op = op;
                let children = resolve_children(op.base.children);
                op.base.children = children;
                op.base.types = copy_types(&op.expr_types);
                LogicalOperator::LogicalExpressionGet(op)
            },
            LogicalOperator::LogicalInsert(op) => {
                let mut op = op;
                let children = resolve_children(op.base.children);
                op.base.children = children;
                op.base.types.push(LogicalType::Bigint);
                LogicalOperator::LogicalInsert(op)
            },
            LogicalOperator::LogicalGet(op) => {
                let mut op = op;
                let children = resolve_children(op.base.children);
                op.base.children = children;
                let mut extra = copy_types(&op.returned_types);
                op.base.types.append(&mut extra);
                LogicalOperator::LogicalGet(op)
            },
            LogicalOperator::LogicalProjection(op) => {
                let mut op = op;
                let children = resolve_children(op.base.children);
                op.base.children = children;
                let mut extra = expression_types(&op.base.expressioins);
                op.base.types.append(&mut extra);
                LogicalOperator::LogicalProjection(op)
            },
        }
    }
}

/// The return types of a list of expressions.
fn expression_types(exprs: &Vec<BoundExpression>) -> (r: Vec<LogicalType>)
    ensures
        r@ == exprs@.map_values(|e: BoundExpression| e.return_type),
{
    let mut r: Vec<LogicalType> = Vec::new();
    let mut i: usize = 0;
    while i < exprs.len()
        invariant
            i <= exprs@.len(),
            r@ == exprs@.subrange(0, i as int).map_values(|e: BoundExpression| e.return_type),
        decreases exprs@.len() - i,
    {
        r.push(exprs[i].return_type());
        i += 1;
        assert(r@ =~= exprs@.subrange(0, i as int).map_values(|e: BoundExpression| e.return_type));
    }
    assert(exprs@.subrange(0, i as int) =~= exprs@);
    r
}

fn copy_types(types: &Vec<LogicalType>) -> (r: Vec<LogicalType>)
    ensures
        r@ == types@,
{
    let mut r: Vec<LogicalType> = Vec::new();
    let mut i: usize = 0;
    while i < types.len()
        invariant
            i <= types@.len(),
            r@ == types@.subrange(0, i as int),
        decreases types@.len() - i,
    {
        r.push(types[i]);
        i += 1;
        assert(r@ =~= types@.subrange(0, i as int));
    }
    assert(r@ =~= types@);
    r
}

/// Resolves each operator of a list, keeping their order.
fn resolve_children(children: Vec<LogicalOperator>) -> (r: Vec<LogicalOperator>)
    ensures
        r@.len() == children@.len(),
        forall|i: int| 0 <= i < r@.len() ==> is_resolved(children@[i], #[trigger] r@[i]),
    decreases children,
{
    let ghost orig = children@;
    let ghost orig_vec = children;
    let mut rest = children;
    let mut out: Vec<LogicalOperator> = Vec::new();
    while rest.len() > 0
        invariant
            out@.len() + rest@.len() == orig.len(),
            orig == orig_vec@,
            orig_vec == children,
            rest@ == orig.subrange(out@.len() as int, orig.len() as int),
            forall|i: int| 0 <= i < out@.len() ==> is_resolved(orig[i], #[trigger] out@[i]),
        decreases rest@.len(),
    {
        let c = rest.remove(0);
        assert(c == orig[out@.len() as int]);
        proof {
            vstd::std_specs::vec::axiom_vec_index_decreases(orig_vec, out@.len() as int);
            assert(decreases_to!(children => c));
        }
        out.push(c.resolve_operator_types());
    }
    out
}

} // verus!
