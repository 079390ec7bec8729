//! The schema: the rows of the schema table on page 1, and what the
//! statements stored there say of tables and indexes.

use crate::btree::TABLE_LEAF;
use crate::bytes::{to_unsigned, twos_complement};
use crate::error::{yields, Error};
use crate::page_io::{DbHeader, Page, PageView};
use crate::record::{read_record, CellShape, Record, RecordView};
use crate::syntax::create_index::{CreateIndexStmt, CreateIndexView};
use crate::syntax::create_table::{
    duplicate_names, ColumnDef, ColumnDefView, CreateTableStmt, CreateTableView,
};
use crate::text::text_equal;
use crate::typecodes::SqlValue;
use vstd::prelude::*;

verus! {

/// One row of the schema table.
#[derive(Debug, PartialEq)]
pub struct SqlSchemaElement {
    pub element_type: String,
    pub name: String,
    pub tbl_name: String,
    pub rootpage: u64,
    pub sql: String,
}

/// What a [`SqlSchemaElement`] stands for.
pub struct ElementView {
    pub element_type: Seq<char>,
    pub name: Seq<char>,
    pub tbl_name: Seq<char>,
    pub rootpage: u64,
    pub sql: Seq<char>,
}

/// The rows of the schema table, in the order of the page.
#[derive(Debug, PartialEq)]
pub struct SqliteSchema {
    pub schema_elements: Vec<SqlSchemaElement>,
}

/// What an index is called, on which table it stands, and which columns it
/// holds.
#[derive(Debug, PartialEq)]
pub struct IndexSchema {
    pub name: String,
    pub table_name: String,
    pub columns: Vec<String>,
}

/// What an [`IndexSchema`] stands for.
pub struct IndexSchemaView {
    pub name: Seq<char>,
    pub table_name: Seq<char>,
    pub columns: Seq<Seq<char>>,
}

/// A table's name and its columns in order.
#[derive(Debug, PartialEq)]
pub struct TableSchema {
    pub name: String,
    pub columns: Vec<Column>,
}

/// What a [`TableSchema`] stands for.
pub struct TableSchemaView {
    pub name: Seq<char>,
    pub columns: Seq<ColumnView>,
}

/// A column's name, and whether it is a primary key.
#[derive(Debug, PartialEq)]
pub struct Column {
    pub name: String,
    pub is_primary_key: bool,
}

/// What a [`Column`] stands for.
pub struct ColumnView {
    pub name: Seq<char>,
    pub is_primary_key: bool,
}

impl DeepView for SqlSchemaElement {
    type V = ElementView;

    open spec fn deep_view(&self) -> ElementView {
        ElementView {
            element_type: self.element_type@,
            name: self.name@,
            tbl_name: self.tbl_name@,
            rootpage: self.rootpage,
            sql: self.sql@,
        }
    }
}

impl DeepView for SqliteSchema {
    type V = Seq<ElementView>;

    open spec fn deep_view(&self) -> Seq<ElementView> {
        self.schema_elements.deep_view()
    }
}

impl DeepView for IndexSchema {
    type V = IndexSchemaView;

    open spec fn deep_view(&self) -> IndexSchemaView {
        IndexSchemaView {
            name: self.name@,
            table_name: self.table_name@,
            columns: self.columns.deep_view(),
        }
    }
}

impl DeepView for Column {
    type V = ColumnView;

    open spec fn deep_view(&self) -> ColumnView {
        ColumnView { name: self.name@, is_primary_key: self.is_primary_key }
    }
}

impl DeepView for TableSchema {
    type V = TableSchemaView;

    open spec fn deep_view(&self) -> TableSchemaView {
        TableSchemaView { name: self.name@, columns: self.columns.deep_view() }
    }
}

/// The schema element that a row of the schema table spells: five columns,
/// of which the fourth is an integer and the others are texts.
pub open spec fn element_of_row(row: RecordView) -> Result<ElementView, Error> {
    if row.values.len() != 5 {
        Err(Error::Schema)
    } else {
        match (
            row.values[0].text(),
            row.values[1].text(),
            row.values[2].text(),
            row.values[3].integer(),
            row.values[4].text(),
        ) {
            (Some(element_type), Some(name), Some(tbl_name), Some(rootpage), Some(sql)) => Ok(
                ElementView {
                    element_type,
                    name,
                    tbl_name,
                    rootpage: twos_complement(rootpage),
                    sql,
                },
            ),
            _ => Err(Error::Schema),
        }
    }
}

/// The schema that the page of the schema table holds: one element for each
/// cell, in the order of the page. The page has to be a table leaf; the
/// first cell that cannot be read, or that holds no schema element, decides
/// the error.
pub open spec fn spec_schema(file: Seq<u8>, page_size: u16, page: PageView) -> Result<
    Seq<ElementView>,
    Error,
> {
    if page.header.page_type != TABLE_LEAF {
        Err(Error::Unsupported)
    } else {
        schema_prefix(file, page_size, page, page.pointers.len())
    }
}

/// The schema elements of the first `n` cells of the schema page.
pub open spec fn schema_prefix(file: Seq<u8>, page_size: u16, page: PageView, n: nat) -> Result<
    Seq<ElementView>,
    Error,
>
    decreases n,
{
    if n == 0 {
        Ok(Seq::empty())
    } else {
        match schema_prefix(file, page_size, page, (n - 1) as nat) {
            Err(e) => Err(e),
            Ok(elements) => match crate::record::spec_read_record(
                file,
                page_size,
                page,
                n - 1,
                CellShape::TableLeaf,
            ) {
                Err(e) => Err(e),
                Ok(record) => match element_of_row(record) {
                    Err(e) => Err(e),
                    Ok(element) => Ok(elements.push(element)),
                },
            },
        }
    }
}

/// The text of a value, where it is a text.
pub fn text_of(value: &SqlValue) -> (r: Option<String>)
    ensures
        r.deep_view() == value@.text(),
{
    match value {
        SqlValue::Text(s) => Some(s.clone()),
        _ => None,
    }
}

impl SqlSchemaElement {
    /// Reads a schema element from a row of the schema table.
    pub fn from_row(row: Record) -> (r: Result<SqlSchemaElement, Error>)
        ensures
            yields(r, element_of_row(row@)),
    {
        if row.values.len() != 5 {
            return Err(Error::Schema);
        }
        assert(row@.values[0] == row.values@[0]@);
        assert(row@.values[1] == row.values@[1]@);
        assert(row@.values[2] == row.values@[2]@);
        assert(row@.values[3] == row.values@[3]@);
        assert(row@.values[4] == row.values@[4]@);
        let element_type = text_of(&row.values[0]);
        let name = text_of(&row.values[1]);
        let tbl_name = text_of(&row.values[2]);
        let rootpage = row.values[3].as_integer();
        let sql = text_of(&row.values[4]);
        match (element_type, name, tbl_name, rootpage, sql) {
            (Some(element_type), Some(name), Some(tbl_name), Some(rootpage), Some(sql)) => Ok(
                SqlSchemaElement {
                    element_type,
                    name,
                    tbl_name,
                    rootpage: to_unsigned(rootpage),
                    sql,
                },
            ),
            _ => Err(Error::Schema),
        }
    }
}

impl SqliteSchema {
    /// Reads the schema from the page of the schema table.
    #[verifier::loop_isolation(false)]
    pub fn from_page(file: &[u8], dbheader: &DbHeader, page: &Page) -> (r: Result<
        SqliteSchema,
        Error,
    >)
        ensures
            yields(r, spec_schema(file@, dbheader.page_size, page@)),
    {
        let header = page.header();
        if header.page_type != TABLE_LEAF {
            return Err(Error::Unsupported);
        }
        let n = page.num_cells();
        let mut schema_elements: Vec<SqlSchemaElement> = Vec::new();
        let mut i: usize = 0;
        assert(schema_elements.deep_view() =~= Seq::<ElementView>::empty());
        while i < n
            invariant
                i <= n,
                schema_prefix(file@, dbheader.page_size, page@, i as nat) == Ok::<
                    Seq<ElementView>,
                    Error,
                >(schema_elements.deep_view()),
            decreases n - i,
        {
            let record = match read_record(file, dbheader, page, i, CellShape::TableLeaf) {
                Ok(record) => record,
                Err(e) => {
                    proof {
                        lemma_prefix_error(file@, dbheader.page_size, page@, (i + 1) as nat, n as nat);
                    }
                    return Err(e);
                },
            };
            let element = match SqlSchemaElement::from_row(record) {
                Ok(element) => element,
                Err(e) => {
                    proof {
                        lemma_prefix_error(file@, dbheader.page_size, page@, (i + 1) as nat, n as nat);
                    }
                    return Err(e);
                },
            };
            let ghost before = schema_elements.deep_view();
            let ghost view = element.deep_view();
            schema_elements.push(element);
            assert(schema_elements.deep_view() =~= before.push(view));
            i += 1;
        }
        Ok(SqliteSchema { schema_elements })
    }
}

/// An error among the first cells is the error of the whole page.
proof fn lemma_prefix_error(file: Seq<u8>, page_size: u16, page: PageView, k: nat, n: nat)
    requires
        k <= n,
        schema_prefix(file, page_size, page, k) is Err,
    ensures
        schema_prefix(file, page_size, page, n) == schema_prefix(file, page_size, page, k),
    decreases n - k,
{
    if k < n {
        lemma_prefix_error(file, page_size, page, k, (n - 1) as nat);
    }
}

/// Whether one of the constraints makes the column a primary key.
pub open spec fn has_primary_key(column: ColumnDefView) -> bool {
    exists|k: int|
        0 <= k < column.constraints.len() && (#[trigger] column.constraints[k]).is_primary_key()
}

/// The column that a column definition declares.
pub open spec fn column_of(column: ColumnDefView) -> ColumnView {
    ColumnView { name: column.name, is_primary_key: has_primary_key(column) }
}

/// The table that a `CREATE TABLE` statement declares: none where it takes
/// its columns from a `SELECT`.
pub open spec fn table_of(ast: CreateTableView) -> Result<TableSchemaView, Error> {
    match ast.cols() {
        Err(e) => Err(e),
        Ok(columns) => Ok(
            TableSchemaView {
                name: ast.table_name,
                columns: Seq::new(columns.len(), |i: int| column_of(columns[i])),
            },
        ),
    }
}

/// The index that a `CREATE INDEX` statement declares.
pub open spec fn index_of(ast: CreateIndexView) -> IndexSchemaView {
    IndexSchemaView { name: ast.index_name, table_name: ast.table_name, columns: ast.columns }
}

impl Column {
    /// The column that a column definition declares.
    pub fn from_ast(ast: &ColumnDef) -> (column: Column)
        ensures
            column.deep_view() == column_of(ast.deep_view()),
    {
        let mut is_primary_key = false;
        let mut i: usize = 0;
        while i < ast.constraints.len()
            invariant
                i <= ast.constraints.len(),
                is_primary_key == exists|k: int|
                    0 <= k < i && (#[trigger] ast.deep_view().constraints[k]).is_primary_key(),
            decreases ast.constraints.len() - i,
        {
            assert(ast.deep_view().constraints[i as int] == ast.constraints@[i as int].deep_view());
            if ast.constraints[i].is_primary_key() {
                is_primary_key = true;
            }
            i += 1;
        }
        Column { name: ast.name.clone(), is_primary_key }
    }
}

impl TableSchemaView {
    /// The place of the first column with the name `name`.
    pub open spec fn column_index(self, name: Seq<char>) -> Option<int> {
        first_named(self.columns, name, 0)
    }
}

/// The place of the first column from place `i` on with the name `name`.
pub open spec fn first_named(columns: Seq<ColumnView>, name: Seq<char>, i: int) -> Option<int>
    decreases columns.len() - i,
{
    if !(0 <= i < columns.len()) {
        None
    } else if columns[i].name == name {
        Some(i)
    } else {
        first_named(columns, name, i + 1)
    }
}

impl TableSchema {
    /// The table that a `CREATE TABLE` statement declares.
    pub fn from_ast(ast: &CreateTableStmt) -> (r: Result<TableSchema, Error>)
        ensures
            yields(r, table_of(ast.deep_view())),
    {
        let defs = match ast.cols() {
            Ok(defs) => defs,
            Err(e) => {
                return Err(e);
            },
        };
        let mut columns: Vec<Column> = Vec::new();
        let mut i: usize = 0;
        while i < defs.len()
            invariant
                i <= defs.len(),
                columns@.len() == i,
                forall|k: int|
                    0 <= k < i ==> (#[trigger] columns@[k]).deep_view() == column_of(
                        defs.deep_view()[k],
                    ),
            decreases defs.len() - i,
        {
            assert(defs.deep_view()[i as int] == defs@[i as int].deep_view());
            columns.push(Column::from_ast(&defs[i]));
            i += 1;
        }
        assert(columns.deep_view() =~= Seq::new(
            defs.deep_view().len(),
            |i: int| column_of(defs.deep_view()[i]),
        ));
        Ok(TableSchema { name: ast.table_name.clone(), columns })
    }

    /// The place of the column that is the primary key: none where no
    /// column is one, and a schema error where more than one is.
    pub fn primary_key_index(&self) -> (r: Result<Option<usize>, Error>)
        ensures
            match r {
                Ok(None) => forall|k: int|
                    0 <= k < self.columns@.len() ==> !(#[trigger] self.columns@[k]).is_primary_key,
                Ok(Some(i)) => i < self.columns@.len() && self.columns@[i as int].is_primary_key
                    && forall|k: int|
                    0 <= k < self.columns@.len() && k != i ==> !(
                    #[trigger] self.columns@[k]).is_primary_key,
                Err(e) => e == Error::Schema && exists|a: int, b: int|
                    0 <= a < b < self.columns@.len() && (#[trigger] self.columns@[a]).is_primary_key
                        && (#[trigger] self.columns@[b]).is_primary_key,
            },
    {
        let mut found: Option<usize> = None;
        let mut i: usize = 0;
        while i < self.columns.len()
            invariant
                i <= self.columns.len(),
                match found {
                    None => forall|k: int|
                        0 <= k < i ==> !(#[trigger] self.columns@[k]).is_primary_key,
                    Some(at) => at < i && self.columns@[at as int].is_primary_key && forall|k: int|
                        0 <= k < i && k != at ==> !(#[trigger] self.columns@[k]).is_primary_key,
                },
            decreases self.columns.len() - i,
        {
            if self.columns[i].is_primary_key {
                match found {
                    Some(at) => {
                        assert(self.columns@[at as int].is_primary_key && self.columns@[i as int].is_primary_key);
                        return Err(Error::Schema);
                    },
                    None => {
                        found = Some(i);
                    },
                }
            }
            i += 1;
        }
        Ok(found)
    }

    /// The place of the first column with the name `name`.
    pub fn column_index(&self, name: &str) -> (r: Option<usize>)
        ensures
            match self.deep_view().column_index(name@) {
                Some(i) => r == Some(i as usize) && 0 <= i < self.columns@.len(),
                None => r is None,
            },
    {
        let mut i: usize = 0;
        while i < self.columns.len()
            invariant
                i <= self.columns.len(),
                self.deep_view().column_index(name@) == first_named(
                    self.deep_view().columns,
                    name@,
                    i as int,
                ),
            decreases self.columns.len() - i,
        {
            assert(self.deep_view().columns[i as int] == self.columns@[i as int].deep_view());
            if text_equal(self.columns[i].name.as_str(), name) {
                return Some(i);
            }
            i += 1;
        }
        None
    }
}

impl IndexSchema {
    /// The index that a `CREATE INDEX` statement declares.
    pub fn from_ast(ast: &CreateIndexStmt) -> (index: IndexSchema)
        ensures
            index.deep_view() == index_of(ast.deep_view()),
    {
        IndexSchema {
            name: ast.index_name.clone(),
            table_name: ast.table_name.clone(),
            columns: duplicate_names(&ast.columns),
        }
    }
}

} // verus!
