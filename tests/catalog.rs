use sqlrs::catalog::{
    Catalog, CatalogEntry, CatalogError, ColumnDefinition, DataTable, TableCatalogEntry,
};
use sqlrs::logical_type::LogicalType;

fn columns() -> Vec<ColumnDefinition> {
    vec![
        ColumnDefinition { name: "a".to_string(), ty: LogicalType::Integer },
        ColumnDefinition { name: "b".to_string(), ty: LogicalType::Varchar },
    ]
}

#[test]
fn create_schema_then_table_then_get() {
    let mut catalog = Catalog::new();
    assert_eq!(catalog.create_schema("main".to_string()), Ok(()));
    assert_eq!(catalog.catalog_version, 1);
    assert_eq!(
        catalog.create_table(
            "main".to_string(),
            "t1".to_string(),
            DataTable { column_definitions: columns() }
        ),
        Ok(())
    );
    assert_eq!(catalog.catalog_version, 2);
    let table = catalog.get_table("main".to_string(), "t1".to_string()).unwrap();
    assert_eq!(table.name, "t1");
    assert_eq!(table.oid, 2);
    assert_eq!(table.columns, columns());
}

#[test]
fn duplicate_schema_is_refused() {
    let mut catalog = Catalog::new();
    catalog.create_schema("main".to_string()).unwrap();
    assert_eq!(
        catalog.create_schema("main".to_string()),
        Err(CatalogError::CatalogEntryExists("main".to_string()))
    );
    assert_eq!(catalog.schemas.len(), 1);
    assert_eq!(catalog.catalog_version, 2);
}

#[test]
fn duplicate_table_is_refused() {
    let mut catalog = Catalog::new();
    catalog.create_schema("main".to_string()).unwrap();
    let data = || DataTable { column_definitions: columns() };
    catalog.create_table("main".to_string(), "t1".to_string(), data()).unwrap();
    assert_eq!(
        catalog.create_table("main".to_string(), "t1".to_string(), data()),
        Err(CatalogError::CatalogEntryExists("t1".to_string()))
    );
}

#[test]
fn missing_schema_or_table() {
    let mut catalog = Catalog::new();
    assert_eq!(
        catalog.create_table(
            "nope".to_string(),
            "t1".to_string(),
            DataTable { column_definitions: vec![] }
        ),
        Err(CatalogError::CatalogEntryNotExists("nope".to_string()))
    );
    assert_eq!(catalog.catalog_version, 0);
    catalog.create_schema("main".to_string()).unwrap();
    assert_eq!(
        catalog.get_table("nope".to_string(), "t1".to_string()).unwrap_err(),
        CatalogError::CatalogEntryNotExists("nope".to_string())
    );
    assert_eq!(
        catalog.get_table("main".to_string(), "t9".to_string()).unwrap_err(),
        CatalogError::CatalogEntryNotExists("t9".to_string())
    );
}

#[test]
fn table_entry_at_top_level_is_not_a_schema() {
    let mut catalog = Catalog::new();
    catalog.schemas.push(CatalogEntry::TableCatalogEntry(TableCatalogEntry {
        oid: 0,
        name: "loose".to_string(),
        columns: vec![],
    }));
    assert_eq!(
        catalog.get_table("loose".to_string(), "t".to_string()).unwrap_err(),
        CatalogError::CatalogEntryTypeNotMatch
    );
    assert_eq!(
        catalog.create_table(
            "loose".to_string(),
            "t".to_string(),
            DataTable { column_definitions: vec![] }
        ),
        Err(CatalogError::CatalogEntryTypeNotMatch)
    );
    assert_eq!(catalog.catalog_version, 0);
}
