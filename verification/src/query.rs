//! Answering a `SELECT`: resolving its columns against the table's schema,
//! choosing between the probe of an index and the scan of the table,
//! filtering the rows, and laying out the columns that were asked for.

use crate::btree::{full_table_scan, row_lookup, spec_lookup, spec_scan, MAX_DEPTH};
use crate::chars::{decimal, decimal_string};
use crate::error::{gives, yields, Error};
use crate::index::{index_scan, spec_index_scan};
use crate::page_io::DbHeader;
use crate::record::{Record, RecordView};
use crate::schema::{
    index_of, table_of, ElementView, IndexSchema, SqlSchemaElement, SqliteSchema, TableSchema,
    TableSchemaView,
};
use crate::syntax::select::{SelectStmt, SelectView, WhereClause, WhereView};
use crate::syntax::statement::{Statement, StatementView};
use crate::syntax::{parse, spec_parse};
use crate::text::text_equal;
use crate::typecodes::{Datum, SqlValue};
use vstd::prelude::*;
use vstd::string::StringExecFns;

verus! {

/// What a column of the result takes from a row.
#[derive(Debug, Clone, Copy, PartialEq, Eq)]
pub enum Projected {
    /// The row-id, which the name `id` stands for.
    RowId,
    /// The value of the column at this place.
    Column(usize),
}

/// A condition on a row: the column at this place is a text and equals the
/// value.
#[derive(Debug, PartialEq)]
pub struct Condition {
    pub column: usize,
    pub value: String,
}

/// What a [`Condition`] stands for.
pub struct ConditionView {
    pub column: usize,
    pub value: Seq<char>,
}

impl DeepView for Condition {
    type V = ConditionView;

    open spec fn deep_view(&self) -> ConditionView {
        ConditionView { column: self.column, value: self.value@ }
    }
}

impl DeepView for Projected {
    type V = Projected;

    open spec fn deep_view(&self) -> Projected {
        *self
    }
}

/// The place of the first schema element from place `i` on with the name
/// `name`.
pub open spec fn find_element(schema: Seq<ElementView>, name: Seq<char>, i: int) -> Option<int>
    decreases schema.len() - i,
{
    if !(0 <= i < schema.len()) {
        None
    } else if schema[i].name == name {
        Some(i)
    } else {
        find_element(schema, name, i + 1)
    }
}

/// The table that the statement `sql` of a schema element declares.
pub open spec fn table_schema_of(sql: Seq<char>) -> Result<TableSchemaView, Error> {
    match spec_parse(sql) {
        Ok(StatementView::CreateTable(ast)) => table_of(ast),
        Ok(_) => Err(Error::Unsupported),
        Err(e) => Err(e),
    }
}

/// What the column `name` of a query takes from a row: `id` is the row-id,
/// any other name is the table's column of that name.
pub open spec fn projected_of(table: TableSchemaView, name: Seq<char>) -> Result<Projected, Error> {
    if name == "id"@ {
        Ok(Projected::RowId)
    } else {
        match table.column_index(name) {
            Some(i) => Ok(Projected::Column(i as usize)),
            None => Err(Error::Schema),
        }
    }
}

/// What the first `n` columns of a query take from a row.
pub open spec fn projection_plan(table: TableSchemaView, names: Seq<Seq<char>>, n: nat) -> Result<
    Seq<Projected>,
    Error,
>
    decreases n,
{
    if n == 0 {
        Ok(Seq::empty())
    } else {
        match projection_plan(table, names, (n - 1) as nat) {
            Err(e) => Err(e),
            Ok(plan) => match projected_of(table, names[n - 1]) {
                Err(e) => Err(e),
                Ok(p) => Ok(plan.push(p)),
            },
        }
    }
}

/// The conditions that the first `n` clauses of a `WHERE` put on a row.
pub open spec fn conditions(table: TableSchemaView, clauses: Seq<WhereView>, n: nat) -> Result<
    Seq<ConditionView>,
    Error,
>
    decreases n,
{
    if n == 0 {
        Ok(Seq::empty())
    } else {
        match conditions(table, clauses, (n - 1) as nat) {
            Err(e) => Err(e),
            Ok(conds) => match table.column_index(clauses[n - 1].column) {
                None => Err(Error::Schema),
                Some(i) => Ok(
                    conds.push(ConditionView { column: i as usize, value: clauses[n - 1].value }),
                ),
            },
        }
    }
}

/// Whether the row meets the condition: the column is a text and equals the
/// value.
pub open spec fn holds(row: RecordView, condition: ConditionView) -> bool {
    condition.column < row.values.len() && row.values[condition.column as int] == Datum::Text(
        condition.value,
    )
}

/// Whether the row meets every one of the conditions.
pub open spec fn row_matches(row: RecordView, conds: Seq<ConditionView>) -> bool {
    forall|k: int| 0 <= k < conds.len() ==> holds(row, #[trigger] conds[k])
}

/// What the comparison of the row with the condition gives: whether the
/// text in the column equals the value. A row that is NULL there, or has no
/// such column, does not meet the condition; a value that is neither text
/// nor NULL cannot be compared.
pub open spec fn compared(row: RecordView, condition: ConditionView) -> Result<bool, Error> {
    if condition.column >= row.values.len() {
        Ok(false)
    } else {
        match row.values[condition.column as int] {
            Datum::Text(s) => Ok(s == condition.value),
            Datum::Null => Ok(false),
            _ => Err(Error::Unsupported),
        }
    }
}

/// What the check of the row against the conditions from place `i` on
/// gives. The conditions are taken in order, and the first that the row
/// does not meet, or that cannot be compared, decides.
pub open spec fn row_check(row: RecordView, conds: Seq<ConditionView>, i: int) -> Result<
    bool,
    Error,
>
    decreases conds.len() - i,
{
    if !(0 <= i < conds.len()) {
        Ok(true)
    } else {
        match compared(row, conds[i]) {
            Err(e) => Err(e),
            Ok(false) => Ok(false),
            Ok(true) => row_check(row, conds, i + 1),
        }
    }
}

/// The text that a projected column gives for a row: none for NULL and for
/// a column that the row does not have; an error for a value that is
/// neither text nor NULL, and for the row-id of a record that has none.
pub open spec fn projected_text(row: RecordView, p: Projected) -> Result<Option<Seq<char>>, Error> {
    match p {
        Projected::RowId => match row.rowid() {
            Some(id) => Ok(Some(decimal(id as nat))),
            None => Err(Error::Unsupported),
        },
        Projected::Column(i) => if i >= row.values.len() {
            Ok(None)
        } else {
            match row.values[i as int] {
                Datum::Text(s) => Ok(Some(s)),
                Datum::Null => Ok(None),
                _ => Err(Error::Unsupported),
            }
        },
    }
}

/// The line of the first `n` projected columns of a row, and whether it
/// holds a column yet: the texts with `|` between them.
pub open spec fn joined(row: RecordView, plan: Seq<Projected>, n: nat) -> Result<
    (Seq<char>, bool),
    Error,
>
    decreases n,
{
    if n == 0 {
        Ok((Seq::empty(), false))
    } else {
        match joined(row, plan, (n - 1) as nat) {
            Err(e) => Err(e),
            Ok((line, any)) => match projected_text(row, plan[n - 1]) {
                Err(e) => Err(e),
                Ok(None) => Ok((line, any)),
                Ok(Some(text)) => if any {
                    Ok((line.push('|') + text, true))
                } else {
                    Ok((text, true))
                },
            },
        }
    }
}

/// The line of a row.
pub open spec fn row_line(row: RecordView, plan: Seq<Projected>) -> Result<Seq<char>, Error> {
    match joined(row, plan, plan.len()) {
        Ok((line, _)) => Ok(line),
        Err(e) => Err(e),
    }
}

/// The lines of those of the first `n` rows that meet the conditions. The
/// first row that cannot be checked or laid out decides the error.
pub open spec fn output_lines(
    rows: Seq<RecordView>,
    conds: Seq<ConditionView>,
    plan: Seq<Projected>,
    n: nat,
) -> Result<Seq<Seq<char>>, Error>
    decreases n,
{
    if n == 0 {
        Ok(Seq::empty())
    } else {
        match output_lines(rows, conds, plan, (n - 1) as nat) {
            Err(e) => Err(e),
            Ok(lines) => match row_check(rows[n - 1], conds, 0) {
                Err(e) => Err(e),
                Ok(false) => Ok(lines),
                Ok(true) => match row_line(rows[n - 1], plan) {
                    Err(e) => Err(e),
                    Ok(line) => Ok(lines.push(line)),
                },
            },
        }
    }
}

/// Whether the schema element is an index on the table `table` that begins
/// with the column `column`: only the first column of an index is the key
/// that a probe looks for.
pub open spec fn usable_index(element: ElementView, table: Seq<char>, column: Seq<char>) -> bool {
    element.element_type == "index"@ && element.tbl_name == table && match spec_parse(element.sql) {
        Ok(StatementView::CreateIndex { stmt, .. }) => index_of(stmt).columns.len() > 0
            && index_of(stmt).columns[0] == column,
        _ => false,
    }
}

/// The root page of the first index from place `i` on that can be probed for
/// the column.
pub open spec fn chosen_index(
    schema: Seq<ElementView>,
    table: Seq<char>,
    column: Seq<char>,
    i: int,
) -> Option<u64>
    decreases schema.len() - i,
{
    if !(0 <= i < schema.len()) {
        None
    } else if usable_index(schema[i], table, column) {
        Some(schema[i].rootpage)
    } else {
        chosen_index(schema, table, column, i + 1)
    }
}

/// The row-ids that the probes for the first `n` clauses give: one list for
/// each clause that has an index.
pub open spec fn probes(
    file: Seq<u8>,
    page_size: u16,
    schema: Seq<ElementView>,
    table: Seq<char>,
    clauses: Seq<WhereView>,
    n: nat,
) -> Result<Seq<Seq<u64>>, Error>
    decreases n,
{
    if n == 0 {
        Ok(Seq::empty())
    } else {
        match probes(file, page_size, schema, table, clauses, (n - 1) as nat) {
            Err(e) => Err(e),
            Ok(lists) => match chosen_index(schema, table, clauses[n - 1].column, 0) {
                None => Ok(lists),
                Some(root) => match spec_index_scan(
                    file,
                    page_size,
                    root,
                    clauses[n - 1].value,
                    MAX_DEPTH as nat,
                ) {
                    Err(e) => Err(e),
                    Ok(rowids) => Ok(lists.push(rowids)),
                },
            },
        }
    }
}

/// Whether `x` is in every one of the lists from place `from` on.
pub open spec fn in_all(x: u64, lists: Seq<Seq<u64>>, from: int) -> bool {
    forall|k: int| from <= k < lists.len() ==> (#[trigger] lists[k]).contains(x)
}

/// Those of the first `n` row-ids of the first list that are in all the
/// other lists, each once, in the order of the first list.
pub open spec fn survivors(lists: Seq<Seq<u64>>, n: nat) -> Seq<u64>
    decreases n,
{
    if n == 0 {
        Seq::empty()
    } else {
        let before = survivors(lists, (n - 1) as nat);
        let x = lists[0][n - 1];
        if in_all(x, lists, 1) && !before.contains(x) {
            before.push(x)
        } else {
            before
        }
    }
}

/// The records that the lookups of the first `n` row-ids find.
pub open spec fn looked_up(file: Seq<u8>, page_size: u16, root: u64, rowids: Seq<u64>, n: nat) -> Result<
    Seq<RecordView>,
    Error,
>
    decreases n,
{
    if n == 0 {
        Ok(Seq::empty())
    } else {
        match looked_up(file, page_size, root, rowids, (n - 1) as nat) {
            Err(e) => Err(e),
            Ok(rows) => match spec_lookup(file, page_size, root, rowids[n - 1], MAX_DEPTH as nat) {
                Err(e) => Err(e),
                Ok(found) => Ok(rows + found),
            },
        }
    }
}

/// The rows among which the answer is looked for. Where a clause has an
/// index, they are the rows of the row-ids that all the probes give. Where
/// none has one, they are all the rows of the table.
pub open spec fn candidate_rows(
    file: Seq<u8>,
    page_size: u16,
    schema: Seq<ElementView>,
    root: u64,
    table: Seq<char>,
    clauses: Seq<WhereView>,
) -> Result<Seq<RecordView>, Error> {
    match probes(file, page_size, schema, table, clauses, clauses.len()) {
        Err(e) => Err(e),
        Ok(lists) => if lists.len() == 0 {
            spec_scan(file, page_size, root, MAX_DEPTH as nat)
        } else {
            let rowids = survivors(lists, lists[0].len());
            looked_up(file, page_size, root, rowids, rowids.len())
        },
    }
}

/// The lines that answer the query against a table whose schema and root
/// page are known.
#[verifier::opaque]
pub open spec fn select_with(
    file: Seq<u8>,
    page_size: u16,
    schema: Seq<ElementView>,
    root: u64,
    table: TableSchemaView,
    stmt: SelectView,
) -> Result<Seq<Seq<char>>, Error> {
    match projection_plan(table, stmt.columns, stmt.columns.len()) {
        Err(e) => Err(e),
        Ok(plan) => match conditions(table, stmt.where_clause, stmt.where_clause.len()) {
            Err(e) => Err(e),
            Ok(conds) => match candidate_rows(
                file,
                page_size,
                schema,
                root,
                stmt.table,
                stmt.where_clause,
            ) {
                Err(e) => Err(e),
                Ok(rows) => output_lines(rows, conds, plan, rows.len()),
            },
        },
    }
}

/// The lines that answer the query: one for each row of the table that
/// meets every condition of the `WHERE`, with the columns that the query
/// names, in the order in which the rows are found. The table is the first
/// schema element of that name, and its columns are those that its stored
/// statement declares.
pub open spec fn spec_select(
    file: Seq<u8>,
    page_size: u16,
    schema: Seq<ElementView>,
    stmt: SelectView,
) -> Result<Seq<Seq<char>>, Error> {
    match find_element(schema, stmt.table, 0) {
        None => Err(Error::Schema),
        Some(at) => match table_schema_of(schema[at].sql) {
            Err(e) => Err(e),
            Ok(table) => select_with(file, page_size, schema, schema[at].rootpage, table, stmt),
        },
    }
}

/// The place of the first schema element with the name `name`.
pub fn find_table(schema: &SqliteSchema, name: &str) -> (r: Option<usize>)
    ensures
        match find_element(schema.deep_view(), name@, 0) {
            Some(at) => r matches Some(i) && i == at && i < schema.schema_elements@.len(),
            None => r is None,
        },
{
    let mut i: usize = 0;
    while i < schema.schema_elements.len()
        invariant
            i <= schema.schema_elements.len(),
            find_element(schema.deep_view(), name@, 0) == find_element(
                schema.deep_view(),
                name@,
                i as int,
            ),
        decreases schema.schema_elements.len() - i,
    {
        assert(schema.deep_view()[i as int] == schema.schema_elements@[i as int].deep_view());
        if text_equal(schema.schema_elements[i].name.as_str(), name) {
            return Some(i);
        }
        i += 1;
    }
    None
}

/// Reads the table that the statement of a schema element declares.
pub fn table_schema(sql: &str) -> (r: Result<TableSchema, Error>)
    ensures
        yields(r, table_schema_of(sql@)),
{
    match parse(sql) {
        Ok(Statement::CreateTable(ast)) => TableSchema::from_ast(&ast),
        Ok(_) => Err(Error::Unsupported),
        Err(e) => Err(e),
    }
}

/// Resolves the columns of a query against the table.
#[verifier::loop_isolation(false)]
pub fn plan_projection(table: &TableSchema, names: &Vec<String>) -> (r: Result<
    Vec<Projected>,
    Error,
>)
    ensures
        match projection_plan(table.deep_view(), names.deep_view(), names@.len()) {
            Ok(plan) => r matches Ok(p) && p@ == plan,
            Err(e) => r matches Err(f) && f == e,
        },
{
    let mut plan: Vec<Projected> = Vec::new();
    let mut i: usize = 0;
    while i < names.len()
        invariant
            i <= names.len(),
            projection_plan(table.deep_view(), names.deep_view(), i as nat) == Ok::<
                Seq<Projected>,
                Error,
            >(plan@),
        decreases names.len() - i,
    {
        assert(names.deep_view()[i as int] == names@[i as int]@);
        let p = if text_equal(names[i].as_str(), "id") {
            Projected::RowId
        } else {
            match table.column_index(names[i].as_str()) {
                Some(at) => Projected::Column(at),
                None => {
                    proof {
                        lemma_plan_error(
                            table.deep_view(),
                            names.deep_view(),
                            (i + 1) as nat,
                            names@.len(),
                        );
                    }
                    return Err(Error::Schema);
                },
            }
        };
        plan.push(p);
        i += 1;
    }
    Ok(plan)
}

proof fn lemma_plan_error(table: TableSchemaView, names: Seq<Seq<char>>, k: nat, n: nat)
    requires
        k <= n,
        projection_plan(table, names, k) is Err,
    ensures
        projection_plan(table, names, n) == projection_plan(table, names, k),
    decreases n - k,
{
    if k < n {
        lemma_plan_error(table, names, k, (n - 1) as nat);
    }
}

proof fn lemma_conditions_error(table: TableSchemaView, clauses: Seq<WhereView>, k: nat, n: nat)
    requires
        k <= n,
        conditions(table, clauses, k) is Err,
    ensures
        conditions(table, clauses, n) == conditions(table, clauses, k),
    decreases n - k,
{
    if k < n {
        lemma_conditions_error(table, clauses, k, (n - 1) as nat);
    }
}

/// Resolves the clauses of a `WHERE` against the table.
#[verifier::loop_isolation(false)]
pub fn plan_conditions(table: &TableSchema, clauses: &Vec<WhereClause>) -> (r: Result<
    Vec<Condition>,
    Error,
>)
    ensures
        yields(r, conditions(table.deep_view(), clauses.deep_view(), clauses@.len())),
{
    let mut conds: Vec<Condition> = Vec::new();
    let mut i: usize = 0;
    assert(conds.deep_view() =~= Seq::<ConditionView>::empty());
    while i < clauses.len()
        invariant
            i <= clauses.len(),
            conditions(table.deep_view(), clauses.deep_view(), i as nat) == Ok::<
                Seq<ConditionView>,
                Error,
            >(conds.deep_view()),
        decreases clauses.len() - i,
    {
        assert(clauses.deep_view()[i as int] == clauses@[i as int].deep_view());
        let column = match table.column_index(clauses[i].column.as_str()) {
            Some(at) => at,
            None => {
                proof {
                    lemma_conditions_error(
                        table.deep_view(),
                        clauses.deep_view(),
                        (i + 1) as nat,
                        clauses@.len(),
                    );
                }
                return Err(Error::Schema);
            },
        };
        let ghost before = conds.deep_view();
        let condition = Condition { column, value: clauses[i].value.clone() };
        let ghost view = condition.deep_view();
        conds.push(condition);
        assert(conds.deep_view() =~= before.push(view));
        i += 1;
    }
    Ok(conds)
}

/// Compares the row with the condition.
pub fn compare_condition(row: &Record, condition: &Condition) -> (r: Result<bool, Error>)
    ensures
        r == compared(row@, condition.deep_view()),
{
    if condition.column >= row.values.len() {
        return Ok(false);
    }
    assert(row@.values[condition.column as int] == row.values@[condition.column as int]@);
    match &row.values[condition.column] {
        SqlValue::Text(found) => Ok(text_equal(found.as_str(), condition.value.as_str())),
        SqlValue::Null => Ok(false),
        _ => Err(Error::Unsupported),
    }
}

/// Checks the row against the conditions, one after the other.
pub fn check_row(row: &Record, conds: &Vec<Condition>) -> (r: Result<bool, Error>)
    ensures
        r == row_check(row@, conds.deep_view(), 0),
{
    let mut i: usize = 0;
    while i < conds.len()
        invariant
            i <= conds.len(),
            row_check(row@, conds.deep_view(), 0) == row_check(row@, conds.deep_view(), i as int),
        decreases conds.len() - i,
    {
        assert(conds.deep_view()[i as int] == conds@[i as int].deep_view());
        match compare_condition(row, &conds[i]) {
            Err(e) => {
                return Err(e);
            },
            Ok(false) => {
                return Ok(false);
            },
            Ok(true) => {},
        }
        i += 1;
    }
    Ok(true)
}

/// The text that a projected column gives for a row.
pub fn text_of_projected(row: &Record, p: Projected) -> (r: Result<Option<String>, Error>)
    ensures
        match projected_text(row@, p) {
            Ok(text) => r matches Ok(t) && t.deep_view() == text,
            Err(e) => r matches Err(f) && f == e,
        },
{
    match p {
        Projected::RowId => match row.rowid() {
            Some(id) => Ok(Some(decimal_string(id))),
            None => Err(Error::Unsupported),
        },
        Projected::Column(i) => {
            if i >= row.values.len() {
                return Ok(None);
            }
            assert(row@.values[i as int] == row.values@[i as int]@);
            match &row.values[i] {
                SqlValue::Text(s) => Ok(Some(s.clone())),
                SqlValue::Null => Ok(None),
                _ => Err(Error::Unsupported),
            }
        },
    }
}

proof fn lemma_joined_error(row: RecordView, plan: Seq<Projected>, k: nat, n: nat)
    requires
        k <= n,
        joined(row, plan, k) is Err,
    ensures
        joined(row, plan, n) == joined(row, plan, k),
    decreases n - k,
{
    if k < n {
        lemma_joined_error(row, plan, k, (n - 1) as nat);
    }
}

/// Lays out the line of a row: the texts of its projected columns with `|`
/// between them.
#[verifier::loop_isolation(false)]
pub fn project_row(row: &Record, plan: &Vec<Projected>) -> (r: Result<String, Error>)
    ensures
        gives(r, row_line(row@, plan@)),
{
    let mut line = String::new();
    let mut any = false;
    let mut i: usize = 0;
    while i < plan.len()
        invariant
            i <= plan.len(),
            joined(row@, plan@, i as nat) == Ok::<(Seq<char>, bool), Error>((line@, any)),
        decreases plan.len() - i,
    {
        match text_of_projected(row, plan[i]) {
            Err(e) => {
                proof {
                    lemma_joined_error(row@, plan@, (i + 1) as nat, plan@.len());
                }
                return Err(e);
            },
            Ok(None) => {},
            Ok(Some(text)) => {
                if any {
                    line.push('|');
                    line.append(text.as_str());
                } else {
                    line = text;
                }
                any = true;
            },
        }
        i += 1;
    }
    Ok(line)
}

proof fn lemma_lines_error(
    rows: Seq<RecordView>,
    conds: Seq<ConditionView>,
    plan: Seq<Projected>,
    k: nat,
    n: nat,
)
    requires
        k <= n,
        output_lines(rows, conds, plan, k) is Err,
    ensures
        output_lines(rows, conds, plan, n) == output_lines(rows, conds, plan, k),
    decreases n - k,
{
    if k < n {
        lemma_lines_error(rows, conds, plan, k, (n - 1) as nat);
    }
}

/// Lays out the lines of the rows that meet the conditions.
#[verifier::loop_isolation(false)]
pub fn lay_out(rows: &Vec<Record>, conds: &Vec<Condition>, plan: &Vec<Projected>) -> (r: Result<
    Vec<String>,
    Error,
>)
    ensures
        yields(r, output_lines(rows.deep_view(), conds.deep_view(), plan@, rows@.len())),
{
    let mut lines: Vec<String> = Vec::new();
    let mut i: usize = 0;
    assert(lines.deep_view() =~= Seq::<Seq<char>>::empty());
    while i < rows.len()
        invariant
            i <= rows.len(),
            output_lines(rows.deep_view(), conds.deep_view(), plan@, i as nat) == Ok::<
                Seq<Seq<char>>,
                Error,
            >(lines.deep_view()),
        decreases rows.len() - i,
    {
        assert(rows.deep_view()[i as int] == rows@[i as int]@);
        let kept = match check_row(&rows[i], conds) {
            Ok(kept) => kept,
            Err(e) => {
                proof {
                    lemma_lines_error(
                        rows.deep_view(),
                        conds.deep_view(),
                        plan@,
                        (i + 1) as nat,
                        rows@.len(),
                    );
                }
                return Err(e);
            },
        };
        if kept {
            let line = match project_row(&rows[i], plan) {
                Ok(line) => line,
                Err(e) => {
                    proof {
                        lemma_lines_error(
                            rows.deep_view(),
                            conds.deep_view(),
                            plan@,
                            (i + 1) as nat,
                            rows@.len(),
                        );
                    }
                    return Err(e);
                },
            };
            let ghost before = lines.deep_view();
            let ghost view = line@;
            lines.push(line);
            assert(lines.deep_view() =~= before.push(view));
        }
        i += 1;
    }
    Ok(lines)
}

/// Whether the schema element is an index on the table that begins with the
/// column.
pub fn is_usable_index(element: &SqlSchemaElement, table: &str, column: &str) -> (b: bool)
    ensures
        b == usable_index(element.deep_view(), table@, column@),
{
    if !text_equal(element.element_type.as_str(), "index") {
        return false;
    }
    if !text_equal(element.tbl_name.as_str(), table) {
        return false;
    }
    match parse(element.sql.as_str()) {
        Ok(Statement::CreateIndex { stmt, .. }) => {
            let index = IndexSchema::from_ast(&stmt);
            if index.columns.len() == 0 {
                return false;
            }
            assert(index.deep_view().columns[0] == index.columns@[0]@);
            text_equal(index.columns[0].as_str(), column)
        },
        _ => false,
    }
}

/// The root page of the first index that can be probed for the column.
pub fn choose_index(schema: &SqliteSchema, table: &str, column: &str) -> (r: Option<u64>)
    ensures
        r == chosen_index(schema.deep_view(), table@, column@, 0),
{
    let mut i: usize = 0;
    while i < schema.schema_elements.len()
        invariant
            i <= schema.schema_elements.len(),
            chosen_index(schema.deep_view(), table@, column@, 0) == chosen_index(
                schema.deep_view(),
                table@,
                column@,
                i as int,
            ),
        decreases schema.schema_elements.len() - i,
    {
        assert(schema.deep_view()[i as int] == schema.schema_elements@[i as int].deep_view());
        if is_usable_index(&schema.schema_elements[i], table, column) {
            return Some(schema.schema_elements[i].rootpage);
        }
        i += 1;
    }
    None
}

proof fn lemma_probes_error(
    file: Seq<u8>,
    page_size: u16,
    schema: Seq<ElementView>,
    table: Seq<char>,
    clauses: Seq<WhereView>,
    k: nat,
    n: nat,
)
    requires
        k <= n,
        probes(file, page_size, schema, table, clauses, k) is Err,
    ensures
        probes(file, page_size, schema, table, clauses, n) == probes(
            file,
            page_size,
            schema,
            table,
            clauses,
            k,
        ),
    decreases n - k,
{
    if k < n {
        lemma_probes_error(file, page_size, schema, table, clauses, k, (n - 1) as nat);
    }
}

/// Probes an index for each clause that has one.
#[verifier::loop_isolation(false)]
pub fn probe_indexes(
    file: &[u8],
    dbheader: &DbHeader,
    schema: &SqliteSchema,
    table: &str,
    clauses: &Vec<WhereClause>,
) -> (r: Result<Vec<Vec<u64>>, Error>)
    ensures
        match probes(
            file@,
            dbheader.page_size,
            schema.deep_view(),
            table@,
            clauses.deep_view(),
            clauses@.len(),
        ) {
            Ok(lists) => r matches Ok(found) && found.deep_view() == lists,
            Err(e) => r matches Err(f) && f == e,
        },
{
    let mut lists: Vec<Vec<u64>> = Vec::new();
    let mut i: usize = 0;
    assert(lists.deep_view() =~= Seq::<Seq<u64>>::empty());
    while i < clauses.len()
        invariant
            i <= clauses.len(),
            probes(
                file@,
                dbheader.page_size,
                schema.deep_view(),
                table@,
                clauses.deep_view(),
                i as nat,
            ) == Ok::<Seq<Seq<u64>>, Error>(lists.deep_view()),
        decreases clauses.len() - i,
    {
        assert(clauses.deep_view()[i as int] == clauses@[i as int].deep_view());
        match choose_index(schema, table, clauses[i].column.as_str()) {
            None => {},
            Some(root) => {
                let rowids = match index_scan(file, dbheader, root, clauses[i].value.as_str()) {
                    Ok(rowids) => rowids,
                    Err(e) => {
                        proof {
                            lemma_probes_error(
                                file@,
                                dbheader.page_size,
                                schema.deep_view(),
                                table@,
                                clauses.deep_view(),
                                (i + 1) as nat,
                                clauses@.len(),
                            );
                        }
                        return Err(e);
                    },
                };
                let ghost before = lists.deep_view();
                let ghost view = rowids@;
                assert(rowids.deep_view() =~= rowids@);
                lists.push(rowids);
                assert(lists.deep_view() =~= before.push(view));
            },
        }
        i += 1;
    }
    Ok(lists)
}

/// Whether `x` is in the list.
pub fn contains_rowid(list: &Vec<u64>, x: u64) -> (b: bool)
    ensures
        b == list@.contains(x),
{
    let mut i: usize = 0;
    while i < list.len()
        invariant
            i <= list.len(),
            forall|k: int| 0 <= k < i ==> list@[k] != x,
        decreases list.len() - i,
    {
        if list[i] == x {
            return true;
        }
        i += 1;
    }
    false
}

/// Whether `x` is in every one of the lists but the first.
pub fn in_all_others(lists: &Vec<Vec<u64>>, x: u64) -> (b: bool)
    ensures
        b == in_all(x, lists.deep_view(), 1),
{
    let mut k: usize = 1;
    while k < lists.len()
        invariant
            1 <= k,
            forall|j: int| 1 <= j < k && j < lists@.len() ==> (#[trigger] lists.deep_view()[j]).contains(x),
        decreases lists.len() - k,
    {
        assert(lists.deep_view()[k as int] =~= lists@[k as int]@);
        if !contains_rowid(&lists[k], x) {
            return false;
        }
        k += 1;
    }
    true
}

/// Those row-ids of the first list that are in all the other lists, each
/// once, in the order of the first list.
pub fn intersect(lists: &Vec<Vec<u64>>) -> (r: Vec<u64>)
    requires
        lists@.len() > 0,
    ensures
        r@ == survivors(lists.deep_view(), lists@[0]@.len()),
{
    let mut kept: Vec<u64> = Vec::new();
    let mut i: usize = 0;
    assert(lists.deep_view()[0] =~= lists@[0]@);
    while i < lists[0].len()
        invariant
            lists@.len() > 0,
            i <= lists@[0]@.len(),
            lists.deep_view()[0] == lists@[0]@,
            kept@ == survivors(lists.deep_view(), i as nat),
        decreases lists@[0]@.len() - i,
    {
        let x = lists[0][i];
        if in_all_others(lists, x) && !contains_rowid(&kept, x) {
            kept.push(x);
        }
        i += 1;
    }
    kept
}

proof fn lemma_looked_up_error(
    file: Seq<u8>,
    page_size: u16,
    root: u64,
    rowids: Seq<u64>,
    k: nat,
    n: nat,
)
    requires
        k <= n,
        looked_up(file, page_size, root, rowids, k) is Err,
    ensures
        looked_up(file, page_size, root, rowids, n) == looked_up(file, page_size, root, rowids, k),
    decreases n - k,
{
    if k < n {
        lemma_looked_up_error(file, page_size, root, rowids, k, (n - 1) as nat);
    }
}

/// Looks up the rows of the row-ids, one after the other.
#[verifier::loop_isolation(false)]
pub fn look_up_all(file: &[u8], dbheader: &DbHeader, root: u64, rowids: &Vec<u64>) -> (r: Result<
    Vec<Record>,
    Error,
>)
    ensures
        yields(r, looked_up(file@, dbheader.page_size, root, rowids@, rowids@.len())),
{
    let mut rows: Vec<Record> = Vec::new();
    let mut i: usize = 0;
    assert(rows.deep_view() =~= Seq::<RecordView>::empty());
    while i < rowids.len()
        invariant
            i <= rowids.len(),
            looked_up(file@, dbheader.page_size, root, rowids@, i as nat) == Ok::<
                Seq<RecordView>,
                Error,
            >(rows.deep_view()),
        decreases rowids.len() - i,
    {
        let mut found = match row_lookup(file, dbheader, root, rowids[i]) {
            Ok(found) => found,
            Err(e) => {
                proof {
                    lemma_looked_up_error(
                        file@,
                        dbheader.page_size,
                        root,
                        rowids@,
                        (i + 1) as nat,
                        rowids@.len(),
                    );
                }
                return Err(e);
            },
        };
        let ghost before = rows.deep_view();
        let ghost more = found.deep_view();
        rows.append(&mut found);
        assert(rows.deep_view() =~= before + more);
        i += 1;
    }
    Ok(rows)
}

/// Gathers the rows among which the answer is looked for.
pub fn gather_candidates(
    file: &[u8],
    dbheader: &DbHeader,
    schema: &SqliteSchema,
    root: u64,
    table: &str,
    clauses: &Vec<WhereClause>,
) -> (r: Result<Vec<Record>, Error>)
    ensures
        yields(
            r,
            candidate_rows(
                file@,
                dbheader.page_size,
                schema.deep_view(),
                root,
                table@,
                clauses.deep_view(),
            ),
        ),
{
    let lists = match probe_indexes(file, dbheader, schema, table, clauses) {
        Ok(lists) => lists,
        Err(e) => {
            return Err(e);
        },
    };
    if lists.len() == 0 {
        full_table_scan(file, dbheader, root)
    } else {
        assert(lists.deep_view()[0] =~= lists@[0]@);
        let rowids = intersect(&lists);
        look_up_all(file, dbheader, root, &rowids)
    }
}

/// Answers a `SELECT` against a table whose schema and root page are known.
pub fn select_rows(
    file: &[u8],
    dbheader: &DbHeader,
    schema: &SqliteSchema,
    root: u64,
    table: &TableSchema,
    stmt: &SelectStmt,
) -> (r: Result<Vec<String>, Error>)
    ensures
        yields(
            r,
            select_with(
                file@,
                dbheader.page_size,
                schema.deep_view(),
                root,
                table.deep_view(),
                stmt.deep_view(),
            ),
        ),
{
    reveal(select_with);
    let plan = match plan_projection(table, &stmt.columns) {
        Ok(plan) => plan,
        Err(e) => {
            return Err(e);
        },
    };
    let conds = match plan_conditions(table, &stmt.where_clause) {
        Ok(conds) => conds,
        Err(e) => {
            return Err(e);
        },
    };
    let rows = match gather_candidates(
        file,
        dbheader,
        schema,
        root,
        stmt.table.as_str(),
        &stmt.where_clause,
    ) {
        Ok(rows) => rows,
        Err(e) => {
            return Err(e);
        },
    };
    lay_out(&rows, &conds, &plan)
}

/// Answers a `SELECT` against the database: the lines of the result.
pub fn execute_select(
    file: &[u8],
    dbheader: &DbHeader,
    schema: &SqliteSchema,
    stmt: &SelectStmt,
) -> (r: Result<Vec<String>, Error>)
    ensures
        yields(r, spec_select(file@, dbheader.page_size, schema.deep_view(), stmt.deep_view())),
{
    let at = match find_table(schema, stmt.table.as_str()) {
        Some(at) => at,
        None => {
            return Err(Error::Schema);
        },
    };
    assert(schema.deep_view()[at as int] == schema.schema_elements@[at as int].deep_view());
    let element = &schema.schema_elements[at];
    let table = match table_schema(element.sql.as_str()) {
        Ok(table) => table,
        Err(e) => {
            return Err(e);
        },
    };
    select_rows(file, dbheader, schema, element.rootpage, &table, stmt)
}

} // verus!
