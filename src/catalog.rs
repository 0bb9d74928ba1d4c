use vstd::prelude::*;
use crate::logical_type::LogicalType;

verus! {

/// Why a catalog operation failed.
#[derive(Debug, PartialEq, Eq)]
pub enum CatalogError {
    /// No entry has the name.
    CatalogEntryNotExists(String),
    /// An entry with the name is already there.
    CatalogEntryExists(String),
    /// The entry under the name is not of the kind asked for.
    CatalogEntryTypeNotMatch,
    /// Another user holds the catalog; reported by whoever guards it.
    CatalogLockedError,
}

/// A column of a stored table.
#[derive(Debug, PartialEq, Eq)]
pub struct ColumnDefinition {
    pub name: String,
    pub ty: LogicalType,
}

impl Clone for ColumnDefinition {
    fn clone(&self) -> (r: Self)
        ensures
            r == *self,
    {
        ColumnDefinition { name: self.name.clone(), ty: self.ty }
    }
}

/// The columns that a new table is created with.
#[derive(Debug)]
pub struct DataTable {
    pub column_definitions: Vec<ColumnDefinition>,
}

/// A table of a schema.
#[derive(Debug)]
pub struct TableCatalogEntry {
    /// The catalog version at which the table was created.
    pub oid: usize,
    pub name: String,
    pub columns: Vec<ColumnDefinition>,
}

/// A schema and its tables.
#[derive(Debug)]
pub struct SchemaCatalogEntry {
    /// The catalog version at which the schema was created.
    pub oid: usize,
    pub name: String,
    pub tables: Vec<TableCatalogEntry>,
}

/// An entry of the catalog's top level.
#[derive(Debug)]
pub enum CatalogEntry {
    SchemaCatalogEntry(SchemaCatalogEntry),
    TableCatalogEntry(TableCatalogEntry),
}

/// The catalog of the database: its entries by name, and a version that each
/// change increments.
#[derive(Debug)]
pub struct Catalog {
    pub schemas: Vec<CatalogEntry>,
    pub catalog_version: usize,
}

pub open spec fn entry_name(e: CatalogEntry) -> Seq<char> {
    match e {
        CatalogEntry::SchemaCatalogEntry(s) => s.name@,
        CatalogEntry::TableCatalogEntry(t) => t.name@,
    }
}

/// Position of the first entry named `name`.
pub open spec fn entry_position(entries: Seq<CatalogEntry>, name: Seq<char>) -> Option<nat>
    decreases entries.len(),
{
    if entries.len() == 0 {
        None
    } else if entry_name(entries[0]) == name {
        Some(0)
    } else {
        match entry_position(entries.drop_first(), name) {
            Some(i) => Some(i + 1),
            None => None,
        }
    }
}

/// Position of the first table named `name`.
pub open spec fn table_position(tables: Seq<TableCatalogEntry>, name: Seq<char>) -> Option<nat>
    decreases tables.len(),
{
    if tables.len() == 0 {
        None
    } else if tables[0].name@ == name {
        Some(0)
    } else {
        match table_position(tables.drop_first(), name) {
            Some(i) => Some(i + 1),
            None => None,
        }
    }
}

proof fn lemma_entry_position_bound(entries: Seq<CatalogEntry>, name: Seq<char>)
    ensures
        entry_position(entries, name) matches Some(i) ==> i < entries.len() && entry_name(
            entries[i as int],
        ) == name,
    decreases entries.len(),
{
    if entries.len() > 0 {
        lemma_entry_position_bound(entries.drop_first(), name);
    }
}

fn find_entry(entries: &Vec<CatalogEntry>, name: &String) -> (r: Option<usize>)
    ensures
        r matches Some(i) ==> entry_position(entries@, name@) == Some(i as nat),
        r is None ==> entry_position(entries@, name@) is None,
{
    proof {
        lemma_entry_position_bound(entries@, name@);
    }
    let mut i: usize = 0;
    assert(entries@.subrange(0, entries@.len() as int) =~= entries@);
    while i < entries.len()
        invariant
            i <= entries@.len(),
            entry_position(entries@.subrange(i as int, entries@.len() as int), name@) matches Some(k)
                ==> entry_position(entries@, name@) == Some((k + i) as nat),
            entry_position(entries@.subrange(i as int, entries@.len() as int), name@) is None
                ==> entry_position(entries@, name@) is None,
        decreases entries@.len() - i,
    {
        let ghost rest = entries@.subrange(i as int, entries@.len() as int);
        assert(rest.drop_first() =~= entries@.subrange(i + 1, entries@.len() as int));
        let same = match &entries[i] {
            CatalogEntry::SchemaCatalogEntry(s) => s.name == *name,
            CatalogEntry::TableCatalogEntry(t) => t.name == *name,
        };
        if same {
            return Some(i);
        }
        i += 1;
    }
    assert(entries@.subrange(i as int, entries@.len() as int) =~= Seq::<CatalogEntry>::empty());
    None
}

fn find_table(tables: &Vec<TableCatalogEntry>, name: &String) -> (r: Option<usize>)
    ensures
        r matches Some(i) ==> table_position(tables@, name@) == Some(i as nat),
        r is None ==> table_position(tables@, name@) is None,
        r matches Some(i) ==> i < tables@.len(),
{
    let mut i: usize = 0;
    assert(tables@.subrange(0, tables@.len() as int) =~= tables@);
    while i < tables.len()
        invariant
            i <= tables@.len(),
            table_position(tables@.subrange(i as int, tables@.len() as int), name@) matches Some(k)
                ==> table_position(tables@, name@) == Some((k + i) as nat),
            table_position(tables@.subrange(i as int, tables@.len() as int), name@) is None
                ==> table_position(tables@, name@) is None,
        decreases tables@.len() - i,
    {
        let ghost rest = tables@.subrange(i as int, tables@.len() as int);
        assert(rest.drop_first() =~= tables@.subrange(i + 1, tables@.len() as int));
        if tables[i].name == *name {
            return Some(i);
        }
        i += 1;
    }
    assert(tables@.subrange(i as int, tables@.len() as int) =~= Seq::<TableCatalogEntry>::empty());
    None
}

/// Copies a list of column definitions.
fn copy_definitions(cols: &Vec<ColumnDefinition>) -> (r: Vec<ColumnDefinition>)
    ensures
        r@ == cols@,
{
    let mut r: Vec<ColumnDefinition> = Vec::new();
    let mut i: usize = 0;
    while i < cols.len()
        invariant
            i <= cols@.len(),
            r@ == cols@.subrange(0, i as int),
        decreases cols@.len() - i,
    {
        r.push(cols[i].clone());
        i += 1;
        assert(r@ =~= cols@.subrange(0, i as int));
    }
    assert(r@ =~= cols@);
    r
}

impl Catalog {
    /// An empty catalog at version zero.
    pub fn new() -> (r: Self)
        ensures
            r.schemas@.len() == 0,
            r.catalog_version == 0,
    {
        Catalog { schemas: Vec::new(), catalog_version: 0 }
    }

    /// Adds an empty schema named `name`, unless an entry has that name.
    /// The version is incremented either way.
    pub fn create_schema(&mut self, name: String) -> (r: Result<(), CatalogError>)
        requires
            old(self).catalog_version < usize::MAX,
        ensures
            final(self).catalog_version == old(self).catalog_version + 1,
            entry_position(old(self).schemas@, name@) is Some <==> r is Err,
            r matches Err(e) ==> e == CatalogError::CatalogEntryExists(name) && final(self).schemas
                == old(self).schemas,
            r is Ok ==> final(self).schemas@.len() == old(self).schemas@.len() + 1
                && final(self).schemas@.subrange(0, old(self).schemas@.len() as int)
                == old(self).schemas@ && match final(self).schemas@.last() {
                CatalogEntry::SchemaCatalogEntry(s) => s.oid == final(self).catalog_version && s.name
                    == name && s.tables@.len() == 0,
                CatalogEntry::TableCatalogEntry(_) => false,
            },
    {
        self.catalog_version += 1;
        if find_entry(&self.schemas, &name).is_some() {
            return Err(CatalogError::CatalogEntryExists(name));
        }
        let entry = SchemaCatalogEntry { oid: self.catalog_version, name, tables: Vec::new() };
        self.schemas.push(CatalogEntry::SchemaCatalogEntry(entry));
        assert(self.schemas@.subrange(0, old(self).schemas@.len() as int) =~= old(self).schemas@);
        Ok(())
    }

    /// Adds a table named `table` with the given columns to schema `schema`.
    pub fn create_table(&mut self, schema: String, table: String, data_table: DataTable) -> (r: Result<
        (),
        CatalogError,
    >)
        requires
            old(self).catalog_version < usize::MAX,
        ensures
            match entry_position(old(self).schemas@, schema@) {
                None => r == Err::<(), CatalogError>(CatalogError::CatalogEntryNotExists(schema))
                    && *final(self) == *old(self),
                Some(i) => match old(self).schemas@[i as int] {
                    CatalogEntry::TableCatalogEntry(_) => r == Err::<(), CatalogError>(
                        CatalogError::CatalogEntryTypeNotMatch,
                    ) && *final(self) == *old(self),
                    CatalogEntry::SchemaCatalogEntry(s) => final(self).catalog_version
                        == old(self).catalog_version + 1 && if table_position(s.tables@, table@) is Some {
                        r == Err::<(), CatalogError>(CatalogError::CatalogEntryExists(table))
                            && final(self).schemas == old(self).schemas
                    } else {
                        r is Ok && final(self).schemas@.len() == old(self).schemas@.len() && (
                        forall|j: int|
                            0 <= j < old(self).schemas@.len() && j != i ==> final(self).schemas@[j]
                                == old(self).schemas@[j]) && match final(self).schemas@[i as int] {
                            CatalogEntry::SchemaCatalogEntry(n) => n.oid == s.oid && n.name == s.name
                                && n.tables@.len() == s.tables@.len() + 1 && n.tables@.subrange(
                                0,
                                s.tables@.len() as int,
                            ) == s.tables@ && n.tables@.last().oid == final(self).catalog_version
                                && n.tables@.last().name == table && n.tables@.last().columns
                                == data_table.column_definitions,
                            CatalogEntry::TableCatalogEntry(_) => false,
                        }
                    },
                },
            },
    {
        proof {
            lemma_entry_position_bound(self.schemas@, schema@);
        }
        let i = match find_entry(&self.schemas, &schema) {
            Some(i) => i,
            None => {
                return Err(CatalogError::CatalogEntryNotExists(schema));
            },
        };
        assert(entry_position(self.schemas@, schema@) == Some(i as nat));
        if let CatalogEntry::TableCatalogEntry(_) = &self.schemas[i] {
            return Err(CatalogError::CatalogEntryTypeNotMatch);
        }
        self.catalog_version += 1;
        let exists = match &self.schemas[i] {
            CatalogEntry::SchemaCatalogEntry(s) => {
                let found = find_table(&s.tables, &table);
                assert(found is Some <==> table_position(s.tables@, table@) is Some);
                found.is_some()
            },
            CatalogEntry::TableCatalogEntry(_) => false,
        };
        if exists {
            return Err(CatalogError::CatalogEntryExists(table));
        }
        let ghost before = self.schemas@;
        let entry = self.schemas.remove(i);
        if let CatalogEntry::SchemaCatalogEntry(mut s) = entry {
            let ghost old_tables = s.tables@;
            s.tables.push(
                TableCatalogEntry {
                    oid: self.catalog_version,
                    name: table,
                    columns: data_table.column_definitions,
                },
            );
            assert(s.tables@.subrange(0, old_tables.len() as int) =~= old_tables);
            self.schemas.insert(i, CatalogEntry::SchemaCatalogEntry(s));
        }
        assert forall|j: int| 0 <= j < before.len() && j != i implies self.schemas@[j] == before[j] by {
        }
        Ok(())
    }

    /// A copy of table `table` of schema `schema`.
    pub fn get_table(&self, schema: String, table: String) -> (r: Result<TableCatalogEntry, CatalogError>)
        ensures
            match entry_position(self.schemas@, schema@) {
                None => r == Err::<TableCatalogEntry, CatalogError>(
                    CatalogError::CatalogEntryNotExists(schema),
                ),
                Some(i) => match self.schemas@[i as int] {
                    CatalogEntry::TableCatalogEntry(_) => r == Err::<TableCatalogEntry, CatalogError>(
                        CatalogError::CatalogEntryTypeNotMatch,
                    ),
                    CatalogEntry::SchemaCatalogEntry(s) => match table_position(s.tables@, table@) {
                        None => r == Err::<TableCatalogEntry, CatalogError>(
                            CatalogError::CatalogEntryNotExists(table),
                        ),
                        Some(k) => r matches Ok(t) && t.oid == s.tables@[k as int].oid && t.name
                            == s.tables@[k as int].name && t.columns@ == s.tables@[k as int].columns@,
                    },
                },
            },
    {
        proof {
            lemma_entry_position_bound(self.schemas@, schema@);
        }
        let i = match find_entry(&self.schemas, &schema) {
            Some(i) => i,
            None => {
                return Err(CatalogError::CatalogEntryNotExists(schema));
            },
        };
        assert(entry_position(self.schemas@, schema@) == Some(i as nat));
        match &self.schemas[i] {
            CatalogEntry::TableCatalogEntry(_) => Err(CatalogError::CatalogEntryTypeNotMatch),
            CatalogEntry::SchemaCatalogEntry(s) => match find_table(&s.tables, &table) {
                None => Err(CatalogError::CatalogEntryNotExists(table)),
                Some(k) => {
                    assert(table_position(s.tables@, table@) == Some(k as nat));
                    let t = &s.tables[k];
                    Ok(
                        TableCatalogEntry {
                            oid: t.oid,
                            name: t.name.clone(),
                            columns: copy_definitions(&t.columns),
                        },
                    )
                },
            },
        }
    }
}

} // verus!
