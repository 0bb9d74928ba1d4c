use sqlrs::expr::{BinaryOperator, BoundBinaryOp, BoundColumnRef, BoundExpr};
use sqlrs::plan_node::PlanNodeType;
use sqlrs::planner::{BoundSelect, BoundStatement, BoundTableRef, Planner, TableCatalog};
use sqlrs::types::{ColumnCatalog, ColumnDesc, DataType, ScalarValue};

fn build_test_column(table_id: String, column_name: String) -> BoundExpr {
    BoundExpr::ColumnRef(BoundColumnRef {
        column_catalog: ColumnCatalog {
            table_id,
            column_id: column_name.clone(),
            desc: ColumnDesc { name: column_name, data_type: DataType::Int32 },
        },
    })
}

fn build_test_table(table_name: String, columns: Vec<String>) -> Option<BoundTableRef> {
    let mut column_list = Vec::new();
    for column in columns {
        column_list.push(ColumnCatalog {
            table_id: table_name.clone(),
            column_id: column.clone(),
            desc: ColumnDesc { name: column, data_type: DataType::Int32 },
        });
    }
    Some(BoundTableRef::Table {
        table_catalog: TableCatalog { id: table_name.clone(), name: table_name, columns: column_list },
    })
}

fn build_test_select_stmt() -> BoundStatement {
    let table_id = "t".to_string();
    let c1 = build_test_column(table_id.clone(), "c1".to_string());
    let t = build_test_table(table_id.clone(), vec!["c1".to_string(), "c2".to_string()]);

    let where_clause = BoundExpr::BinaryOp(BoundBinaryOp {
        op: BinaryOperator::Eq,
        left: Box::new(build_test_column(table_id, "c2".to_string())),
        right: Box::new(BoundExpr::Constant(ScalarValue::Int32(Some(2)))),
        return_type: Some(DataType::Boolean),
    });

    BoundStatement::Select(BoundSelect {
        select_list: vec![c1],
        from_table: t,
        where_clause: Some(where_clause),
        group_by: vec![],
        limit: Some(BoundExpr::Constant(ScalarValue::Int32(Some(10)))),
        offset: None,
        order_by: vec![],
    })
}

#[test]
fn test_plan_select_works() {
    let stmt = build_test_select_stmt();
    let p = Planner {};
    let node = p.plan(stmt);
    assert!(node.is_ok());
    let plan_ref = node.unwrap();
    assert_eq!(plan_ref.node_type(), PlanNodeType::LogicalLimit);
    assert_eq!(plan_ref.schema().len(), 2);
}

#[test]
fn plan_without_table_limit_or_filter() {
    let stmt = BoundStatement::Select(BoundSelect {
        select_list: vec![BoundExpr::Constant(ScalarValue::Int64(Some(1)))],
        from_table: None,
        where_clause: None,
        group_by: vec![],
        limit: None,
        offset: None,
        order_by: vec![],
    });
    let plan = Planner {}.plan(stmt).unwrap();
    assert_eq!(plan.node_type(), PlanNodeType::LogicalProject);
    assert_eq!(plan.children[0].node_type(), PlanNodeType::Dummy);
    assert!(plan.schema().is_empty());
}
