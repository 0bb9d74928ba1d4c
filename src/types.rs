use vstd::prelude::*;

verus! {

/// The data type of a column or of an expression's value.
#[derive(Debug, Clone, Copy, PartialEq, Eq, Structural)]
pub enum DataType {
    Boolean,
    Int32,
    Int64,
    Utf8,
}

/// A constant value, possibly null, tagged with its type.
#[derive(Debug, PartialEq)]
pub enum ScalarValue {
    Boolean(Option<bool>),
    Int32(Option<i32>),
    Int64(Option<i64>),
    Utf8(Option<String>),
}

impl Clone for ScalarValue {
    fn clone(&self) -> (r: Self)
        ensures
            r == *self,
    {
        match self {
            ScalarValue::Boolean(v) => ScalarValue::Boolean(*v),
            ScalarValue::Int32(v) => ScalarValue::Int32(*v),
            ScalarValue::Int64(v) => ScalarValue::Int64(*v),
            ScalarValue::Utf8(v) => ScalarValue::Utf8(v.clone()),
        }
    }
}

impl ScalarValue {
    pub open spec fn spec_data_type(&self) -> DataType {
        match self {
            ScalarValue::Boolean(_) => DataType::Boolean,
            ScalarValue::Int32(_) => DataType::Int32,
            ScalarValue::Int64(_) => DataType::Int64,
            ScalarValue::Utf8(_) => DataType::Utf8,
        }
    }

    pub fn data_type(&self) -> (r: DataType)
        ensures
            r == self.spec_data_type(),
    {
        match self {
            ScalarValue::Boolean(_) => DataType::Boolean,
            ScalarValue::Int32(_) => DataType::Int32,
            ScalarValue::Int64(_) => DataType::Int64,
            ScalarValue::Utf8(_) => DataType::Utf8,
        }
    }
}

/// Name and type of a column.
#[derive(Debug, PartialEq)]
pub struct ColumnDesc {
    pub name: String,
    pub data_type: DataType,
}

impl Clone for ColumnDesc {
    fn clone(&self) -> (r: Self)
        ensures
            r == *self,
    {
        ColumnDesc { name: self.name.clone(), data_type: self.data_type }
    }
}

/// A column of a table: the table it belongs to, its id there, and its description.
#[derive(Debug, PartialEq)]
pub struct ColumnCatalog {
    pub table_id: String,
    pub column_id: String,
    pub desc: ColumnDesc,
}

impl Clone for ColumnCatalog {
    fn clone(&self) -> (r: Self)
        ensures
            r == *self,
    {
        ColumnCatalog {
            table_id: self.table_id.clone(),
            column_id: self.column_id.clone(),
            desc: self.desc.clone(),
        }
    }
}

impl ColumnCatalog {
    /// Two catalog entries name the same column when table and column ids agree.
    pub open spec fn same_column(&self, other: &ColumnCatalog) -> bool {
        self.table_id@ == other.table_id@ && self.column_id@ == other.column_id@
    }

    pub fn is_same_column(&self, other: &ColumnCatalog) -> (r: bool)
        ensures
            r == self.same_column(other),
    {
        self.table_id == other.table_id && self.column_id == other.column_id
    }
}

/// Copies a list of columns, element by element.
pub fn copy_columns(cols: &Vec<ColumnCatalog>) -> (r: Vec<ColumnCatalog>)
    ensures
        r@ == cols@,
{
    let mut r: Vec<ColumnCatalog> = Vec::new();
    let mut i: usize = 0;
    while i < cols.len()
        invariant
            i <= cols@.len(),
            r@ == cols@.subrange(0, i as int),
        decreases cols@.len() - i,
    {
        r.push(cols[i].clone());
        i += 1;
        assert(r@ =~= cols@.subrange(0, i as int));
    }
    assert(r@ =~= cols@);
    r
}

} // verus!
