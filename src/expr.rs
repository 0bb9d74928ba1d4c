use vstd::prelude::*;
use crate::types::{ColumnCatalog, DataType, ScalarValue};

verus! {

/// Binary operators of bound expressions.
#[derive(Debug, Clone, Copy, PartialEq, Eq, Structural)]
pub enum BinaryOperator {
    Plus,
    Minus,
    Multiply,
    Divide,
    Eq,
    NotEq,
    Lt,
    LtEq,
    Gt,
    GtEq,
    And,
    Or,
}

/// An expression whose identifiers have been resolved and typed.
#[derive(Debug, PartialEq)]
pub enum BoundExpr {
    Constant(ScalarValue),
    ColumnRef(BoundColumnRef),
    /// A column named by its position in the input of the node that holds it.
    InputRef(BoundInputRef),
    BinaryOp(BoundBinaryOp),
    TypeCast(BoundTypeCast),
}

#[derive(Debug, PartialEq)]
pub struct BoundColumnRef {
    pub column_catalog: ColumnCatalog,
}

#[derive(Debug, Clone, Copy, PartialEq, Eq, Structural)]
pub struct BoundInputRef {
    /// The column's position in the input rows.
    pub index: usize,
    pub return_type: DataType,
}

#[derive(Debug, PartialEq)]
pub struct BoundBinaryOp {
    pub op: BinaryOperator,
    pub left: Box<BoundExpr>,
    pub right: Box<BoundExpr>,
    pub return_type: Option<DataType>,
}

#[derive(Debug, PartialEq)]
pub struct BoundTypeCast {
    /// The expression that is cast.
    pub expr: Box<BoundExpr>,
    pub cast_type: DataType,
}

impl Clone for BoundColumnRef {
    fn clone(&self) -> (r: Self)
        ensures
            r == *self,
    {
        BoundColumnRef { column_catalog: self.column_catalog.clone() }
    }
}

impl Clone for BoundExpr {
    fn clone(&self) -> (r: Self)
        ensures
            r == *self,
        decreases self,
    {
        match self {
            BoundExpr::Constant(v) => BoundExpr::Constant(v.clone()),
            BoundExpr::ColumnRef(c) => BoundExpr::ColumnRef(c.clone()),
            BoundExpr::InputRef(i) => BoundExpr::InputRef(*i),
            BoundExpr::BinaryOp(b) => {
                let left = (*b.left).clone();
                let right = (*b.right).clone();
                BoundExpr::BinaryOp(
                    BoundBinaryOp {
                        op: b.op,
                        left: Box::new(left),
                        right: Box::new(right),
                        return_type: b.return_type,
                    },
                )
            },
            BoundExpr::TypeCast(t) => {
                let inner = (*t.expr).clone();
                BoundExpr::TypeCast(BoundTypeCast { expr: Box::new(inner), cast_type: t.cast_type })
            },
        }
    }
}

/// Position of the first column of `schema` that names the same column as `col`.
pub open spec fn column_position(schema: Seq<ColumnCatalog>, col: ColumnCatalog) -> Option<nat>
    decreases schema.len(),
{
    if schema.len() == 0 {
        None
    } else if schema[0].same_column(&col) {
        Some(0)
    } else {
        match column_position(schema.drop_first(), col) {
            Some(i) => Some(i + 1),
            None => None,
        }
    }
}

/// The expression with every column reference that `schema` holds replaced by a
/// reference to its position there.
pub open spec fn rewrite_input_refs(e: BoundExpr, schema: Seq<ColumnCatalog>) -> BoundExpr
    decreases e,
{
    match e {
        BoundExpr::ColumnRef(c) => match column_position(schema, c.column_catalog) {
            Some(i) => BoundExpr::InputRef(
                BoundInputRef { index: i as usize, return_type: c.column_catalog.desc.data_type },
            ),
            None => e,
        },
        BoundExpr::BinaryOp(b) => BoundExpr::BinaryOp(
            BoundBinaryOp {
                op: b.op,
                left: Box::new(rewrite_input_refs(*b.left, schema)),
                right: Box::new(rewrite_input_refs(*b.right, schema)),
                return_type: b.return_type,
            },
        ),
        BoundExpr::TypeCast(t) => BoundExpr::TypeCast(
            BoundTypeCast { expr: Box::new(rewrite_input_refs(*t.expr, schema)), cast_type: t.cast_type },
        ),
        _ => e,
    }
}

/// Whether the expression holds a column reference that `schema` holds.
pub open spec fn has_resolvable_column(e: BoundExpr, schema: Seq<ColumnCatalog>) -> bool
    decreases e,
{
    match e {
        BoundExpr::ColumnRef(c) => column_position(schema, c.column_catalog) is Some,
        BoundExpr::BinaryOp(b) => has_resolvable_column(*b.left, schema) || has_resolvable_column(
            *b.right,
            schema,
        ),
        BoundExpr::TypeCast(t) => has_resolvable_column(*t.expr, schema),
        _ => false,
    }
}

/// Finds the position of `col` in `schema`.
pub fn find_column(schema: &Vec<ColumnCatalog>, col: &ColumnCatalog) -> (r: Option<usize>)
    ensures
        r == (match column_position(schema@, *col) {
            Some(i) => Some(i as usize),
            None => None::<usize>,
        }),
{
    let mut i: usize = 0;
    assert(schema@.subrange(0, schema@.len() as int) =~= schema@);
    while i < schema.len()
        invariant
            i <= schema@.len(),
            column_position(schema@.subrange(i as int, schema@.len() as int), *col) matches Some(k)
                ==> column_position(schema@, *col) == Some((k + i) as nat),
            column_position(schema@.subrange(i as int, schema@.len() as int), *col) is None
                ==> column_position(schema@, *col) is None,
        decreases schema@.len() - i,
    {
        let ghost rest = schema@.subrange(i as int, schema@.len() as int);
        assert(rest.drop_first() =~= schema@.subrange(i + 1, schema@.len() as int));
        if schema[i].is_same_column(col) {
            return Some(i);
        }
        i += 1;
    }
    assert(schema@.subrange(i as int, schema@.len() as int) =~= Seq::<ColumnCatalog>::empty());
    None
}

impl BoundExpr {
    pub open spec fn spec_return_type(&self) -> Option<DataType> {
        match self {
            BoundExpr::Constant(v) => Some(v.spec_data_type()),
            BoundExpr::ColumnRef(c) => Some(c.column_catalog.desc.data_type),
            BoundExpr::InputRef(i) => Some(i.return_type),
            BoundExpr::BinaryOp(b) => b.return_type,
            BoundExpr::TypeCast(t) => Some(t.cast_type),
        }
    }

    /// The type of the expression's value, where it is known.
    pub fn return_type(&self) -> (r: Option<DataType>)
        ensures
            r == self.spec_return_type(),
    {
        match self {
            BoundExpr::Constant(v) => Some(v.data_type()),
            BoundExpr::ColumnRef(c) => Some(c.column_catalog.desc.data_type),
            BoundExpr::InputRef(i) => Some(i.return_type),
            BoundExpr::BinaryOp(b) => b.return_type,
            BoundExpr::TypeCast(t) => Some(t.cast_type),
        }
    }

    /// Replaces each column reference that `schema` holds by its position there;
    /// also tells whether there was any.
    pub fn rewrite_input_refs(&self, schema: &Vec<ColumnCatalog>) -> (r: (BoundExpr, bool))
        ensures
            r.0 == rewrite_input_refs(*self, schema@),
            r.1 == has_resolvable_column(*self, schema@),
        decreases self,
    {
        match self {
            BoundExpr::ColumnRef(c) => match find_column(schema, &c.column_catalog) {
                Some(i) => (
                    BoundExpr::InputRef(
                        BoundInputRef { index: i, return_type: c.column_catalog.desc.data_type },
                    ),
                    true,
                ),
                None => (self.clone(), false),
            },
            BoundExpr::BinaryOp(b) => {
                let (left, l) = b.left.rewrite_input_refs(schema);
                let (right, r) = b.right.rewrite_input_refs(schema);
                (
                    BoundExpr::BinaryOp(
                        BoundBinaryOp {
                            op: b.op,
                            left: Box::new(left),
                            right: Box::new(right),
                            return_type: b.return_type,
                        },
                    ),
                    l || r,
                )
            },
            BoundExpr::TypeCast(t) => {
                let (inner, c) = t.expr.rewrite_input_refs(schema);
                (BoundExpr::TypeCast(BoundTypeCast { expr: Box::new(inner), cast_type: t.cast_type }), c)
            },
            _ => (self.clone(), false),
        }
    }
}

} // verus!
