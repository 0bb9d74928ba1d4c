use sqlrs::logical_type::LogicalType;
use sqlrs::operator::{
    BoundExpression, ColumnBinding, LogicalCreateTable, LogicalGet, LogicalOperator,
    LogicalOperatorBase, LogicalProjection,
};

fn empty_base(children: Vec<LogicalOperator>, exprs: Vec<BoundExpression>) -> LogicalOperatorBase {
    LogicalOperatorBase::new(children, exprs, vec![])
}

fn get() -> LogicalOperator {
    LogicalOperator::LogicalGet(LogicalGet {
        base: empty_base(vec![], vec![]),
        table_idx: 3,
        returned_types: vec![LogicalType::Integer, LogicalType::Varchar],
        names: vec!["a".to_string(), "b".to_string()],
    })
}

fn projection() -> LogicalOperator {
    LogicalOperator::LogicalProjection(LogicalProjection {
        base: empty_base(
            vec![get()],
            vec![BoundExpression { alias: "b".to_string(), return_type: LogicalType::Varchar }],
        ),
        table_idx: 5,
    })
}

#[test]
fn column_bindings_follow_table_index() {
    assert_eq!(
        get().get_column_bindings(),
        vec![ColumnBinding::new(3, 0), ColumnBinding::new(3, 1)]
    );
    assert_eq!(projection().get_column_bindings(), vec![ColumnBinding::new(5, 0)]);
    let create = LogicalOperator::LogicalCreateTable(LogicalCreateTable {
        base: empty_base(vec![], vec![]),
        schema: "main".to_string(),
        table: "t".to_string(),
        columns: vec![],
    });
    assert_eq!(create.get_column_bindings(), vec![ColumnBinding::new(0, 0)]);
}

#[test]
fn resolve_types_recursively() {
    let resolved = projection().resolve_operator_types();
    assert_eq!(resolved.types(), &vec![LogicalType::Varchar]);
    assert_eq!(resolved.children().len(), 1);
    assert_eq!(
        resolved.children()[0].types(),
        &vec![LogicalType::Integer, LogicalType::Varchar]
    );
    assert_eq!(resolved.expressions().len(), 1);
}

#[test]
fn create_table_resolves_to_count() {
    let create = LogicalOperator::LogicalCreateTable(LogicalCreateTable {
        base: empty_base(vec![], vec![]),
        schema: "main".to_string(),
        table: "t".to_string(),
        columns: vec![],
    });
    assert_eq!(create.resolve_operator_types().types(), &vec![LogicalType::Bigint]);
}
