//! What holds of the planner: where the table is in order and every index
//! that is chosen is an index of the table, the rows that the answer is
//! made of are the same whether the planner probes indexes or scans the
//! table.

use crate::btree::{spec_lookup, spec_scan, MAX_DEPTH};
use crate::error::Error;
use crate::index::spec_index_scan;
use crate::index_laws::{
    index_ordered, indexes_column, lemma_probe_agrees_with_scan, row_has, spec_index_entries,
};
use crate::query::{
    candidate_rows, chosen_index, conditions, holds, in_all, looked_up, probes, row_matches,
    survivors, ConditionView,
};
use crate::query_laws::{
    kept_rows, lemma_kept_rows, lemma_survivors_in_every_list, lemma_where_conjunction,
};
use crate::record::RecordView;
use crate::schema::{ElementView, TableSchemaView};
use crate::syntax::select::WhereView;
use crate::table_laws::{lemma_lookup_finds_scanned_row, table_ordered};
use vstd::prelude::*;

verus! {

/// Whether the index under `index_root` is in order and is an index over
/// column `column` of the rows.
#[verifier::opaque]
pub open spec fn index_serves(
    file: Seq<u8>,
    page_size: u16,
    index_root: u64,
    rows: Seq<RecordView>,
    column: int,
) -> bool {
    &&& index_ordered(file, page_size, index_root, MAX_DEPTH as nat)
    &&& spec_index_entries(file, page_size, index_root, MAX_DEPTH as nat) matches Ok(entries)
        && indexes_column(entries, rows, column)
}

/// Whether every index that the planner chooses for one of the clauses is
/// an index over that clause's column of the rows.
pub open spec fn indexes_serve(
    file: Seq<u8>,
    page_size: u16,
    schema: Seq<ElementView>,
    table: Seq<char>,
    clauses: Seq<WhereView>,
    conds: Seq<ConditionView>,
    rows: Seq<RecordView>,
) -> bool {
    forall|k: int|
        0 <= k < clauses.len() ==> (#[trigger] chosen_index(schema, table, clauses[k].column, 0)
            matches Some(index_root) ==> index_serves(
            file,
            page_size,
            index_root,
            rows,
            conds[k].column as int,
        ))
}

/// Whether the row-id is that of a row which meets each of the first `n`
/// clauses that have an index.
#[verifier::opaque]
pub open spec fn meets_indexed(
    schema: Seq<ElementView>,
    table: Seq<char>,
    clauses: Seq<WhereView>,
    conds: Seq<ConditionView>,
    rows: Seq<RecordView>,
    n: int,
    rowid: u64,
) -> bool {
    forall|k: int|
        0 <= k < n ==> (#[trigger] chosen_index(schema, table, clauses[k].column, 0) is Some
            ==> row_has(rows, conds[k].column as int, clauses[k].value, rowid))
}

/// The conditions stand in the order of the clauses, one for each, with the
/// clause's value.
pub proof fn lemma_conditions_follow_clauses(
    table: TableSchemaView,
    clauses: Seq<WhereView>,
    n: nat,
)
    ensures
        conditions(table, clauses, n) matches Ok(conds) ==> conds.len() == n && forall|k: int|
            0 <= k < n ==> (#[trigger] conds[k]).value == clauses[k].value,
    decreases n,
{
    if n > 0 {
        lemma_conditions_follow_clauses(table, clauses, (n - 1) as nat);
    }
}

/// A row-id is in every list of a list of lists with one more list exactly
/// where it is in every list before and in the new one.
proof fn lemma_in_all_with_one_more(before: Seq<Seq<u64>>, found: Seq<u64>, id: u64)
    ensures
        in_all(id, before.push(found), 0) <==> in_all(id, before, 0) && found.contains(id),
{
    let lists = before.push(found);
    assert(lists[before.len() as int] == found);
    if in_all(id, lists, 0) {
        assert(lists[before.len() as int].contains(id));
        assert forall|k: int| 0 <= k < before.len() implies (#[trigger] before[k]).contains(
            id,
        ) by {
            assert(lists[k] == before[k]);
        }
    }
    if in_all(id, before, 0) && found.contains(id) {
        assert forall|k: int| 0 <= k < lists.len() implies (#[trigger] lists[k]).contains(id) by {
            if k < before.len() {
                assert(lists[k] == before[k]);
                assert(before[k].contains(id));
            }
        }
    }
}

/// A row-id meets the first `m + 1` clauses that have an index exactly where
/// it meets the first `m` of them and, if clause `m` has an index, that one.
proof fn lemma_meets_one_more(
    schema: Seq<ElementView>,
    table: Seq<char>,
    clauses: Seq<WhereView>,
    conds: Seq<ConditionView>,
    rows: Seq<RecordView>,
    m: int,
    id: u64,
)
    requires
        0 <= m,
    ensures
        meets_indexed(schema, table, clauses, conds, rows, m + 1, id) <==> meets_indexed(
            schema,
            table,
            clauses,
            conds,
            rows,
            m,
            id,
        ) && (chosen_index(schema, table, clauses[m].column, 0) is Some ==> row_has(
            rows,
            conds[m].column as int,
            clauses[m].value,
            id,
        )),
{
    reveal(meets_indexed);
    if meets_indexed(schema, table, clauses, conds, rows, m + 1, id) {
        assert(chosen_index(schema, table, clauses[m].column, 0) is Some ==> row_has(
            rows,
            conds[m].column as int,
            clauses[m].value,
            id,
        ));
    }
}

/// The lists that the probes give hold a row-id in every list exactly where
/// the row-id is that of a row which meets every clause that has an index.
proof fn lemma_probes_give_matching_rowids(
    file: Seq<u8>,
    page_size: u16,
    schema: Seq<ElementView>,
    table: Seq<char>,
    clauses: Seq<WhereView>,
    conds: Seq<ConditionView>,
    root: u64,
    n: nat,
)
    requires
        n <= clauses.len(),
        conds.len() == clauses.len(),
        spec_scan(file, page_size, root, MAX_DEPTH as nat) is Ok,
        indexes_serve(
            file,
            page_size,
            schema,
            table,
            clauses,
            conds,
            spec_scan(file, page_size, root, MAX_DEPTH as nat)->Ok_0,
        ),
    ensures
        probes(file, page_size, schema, table, clauses, n) matches Ok(lists) && (forall|id: u64|
            in_all(id, lists, 0) <==> #[trigger] meets_indexed(
                schema,
                table,
                clauses,
                conds,
                spec_scan(file, page_size, root, MAX_DEPTH as nat)->Ok_0,
                n as int,
                id,
            )) && (lists.len() > 0 ==> exists|k: int|
            0 <= k < n && (#[trigger] chosen_index(schema, table, clauses[k].column, 0)) is Some),
    decreases n,
{
    let rows = spec_scan(file, page_size, root, MAX_DEPTH as nat)->Ok_0;
    if n > 0 {
        let m = (n - 1) as nat;
        lemma_probes_give_matching_rowids(file, page_size, schema, table, clauses, conds, root, m);
        let before = probes(file, page_size, schema, table, clauses, m)->Ok_0;
        let chosen = chosen_index(schema, table, clauses[m as int].column, 0);
        if before.len() > 0 {
            let k = choose|k: int|
                0 <= k < m && (#[trigger] chosen_index(schema, table, clauses[k].column, 0))
                    is Some;
            assert(0 <= k < n);
        }
        match chosen {
            None => {
                assert forall|id: u64|
                    in_all(id, before, 0) <==> #[trigger] meets_indexed(
                        schema,
                        table,
                        clauses,
                        conds,
                        rows,
                        n as int,
                        id,
                    ) by {
                    lemma_meets_one_more(schema, table, clauses, conds, rows, m as int, id);
                }
            },
            Some(index_root) => {
                let column = conds[m as int].column as int;
                let value = clauses[m as int].value;
                assert(index_serves(file, page_size, index_root, rows, column));
                lemma_probe_gives_matching_rowids(
                    file,
                    page_size,
                    root,
                    index_root,
                    column,
                    value,
                );
                let found = spec_index_scan(
                    file,
                    page_size,
                    index_root,
                    value,
                    MAX_DEPTH as nat,
                )->Ok_0;
                assert forall|id: u64|
                    in_all(id, before.push(found), 0) <==> #[trigger] meets_indexed(
                        schema,
                        table,
                        clauses,
                        conds,
                        rows,
                        n as int,
                        id,
                    ) by {
                    assert(found.contains(id) <==> row_has(rows, column, value, id));
                    lemma_in_all_with_one_more(before, found, id);
                    lemma_meets_one_more(schema, table, clauses, conds, rows, m as int, id);
                }
                assert(chosen_index(schema, table, clauses[m as int].column, 0) is Some);
            },
        }
    } else {
        let lists = probes(file, page_size, schema, table, clauses, 0)->Ok_0;
        assert forall|id: u64|
            in_all(id, lists, 0) <==> #[trigger] meets_indexed(
                schema,
                table,
                clauses,
                conds,
                rows,
                0,
                id,
            ) by {
            reveal(meets_indexed);
        }
    }
}

/// The probe of an index that serves a column gives the row-ids of exactly
/// the rows that have the value in that column.
proof fn lemma_probe_gives_matching_rowids(
    file: Seq<u8>,
    page_size: u16,
    root: u64,
    index_root: u64,
    column: int,
    value: Seq<char>,
)
    requires
        spec_scan(file, page_size, root, MAX_DEPTH as nat) is Ok,
        index_serves(
            file,
            page_size,
            index_root,
            spec_scan(file, page_size, root, MAX_DEPTH as nat)->Ok_0,
            column,
        ),
    ensures
        spec_index_scan(file, page_size, index_root, value, MAX_DEPTH as nat) matches Ok(found)
            && forall|id: u64|
            found.contains(id) <==> #[trigger] row_has(
                spec_scan(file, page_size, root, MAX_DEPTH as nat)->Ok_0,
                column,
                value,
                id,
            ),
{
    reveal(index_serves);
    lemma_probe_agrees_with_scan(
        file,
        page_size,
        root,
        index_root,
        column,
        value,
        MAX_DEPTH as nat,
        0,
    );
    let found = spec_index_scan(file, page_size, index_root, value, MAX_DEPTH as nat)->Ok_0;
    assert forall|id: u64|
        found.contains(id) <==> #[trigger] row_has(
            spec_scan(file, page_size, root, MAX_DEPTH as nat)->Ok_0,
            column,
            value,
            id,
        ) by {
        lemma_probe_agrees_with_scan(
            file,
            page_size,
            root,
            index_root,
            column,
            value,
            MAX_DEPTH as nat,
            id,
        );
    }
}

/// A row-id that a row has is the row-id of one of the rows.
proof fn lemma_row_has_gives_row(rows: Seq<RecordView>, column: int, key: Seq<char>, rowid: u64)
    requires
        row_has(rows, column, key, rowid),
    ensures
        exists|k: int| 0 <= k < rows.len() && (#[trigger] rows[k]).rowid() == Some(rowid),
{
    reveal(row_has);
}

/// A row that meets a condition has the condition's value in its column.
proof fn lemma_row_that_holds(rows: Seq<RecordView>, k: int, condition: ConditionView, rowid: u64)
    requires
        0 <= k < rows.len(),
        holds(rows[k], condition),
        rows[k].rowid() == Some(rowid),
    ensures
        row_has(rows, condition.column as int, condition.value, rowid),
{
    reveal(row_has);
}

/// The lookups of row-ids that are all row-ids of scanned rows find the
/// scanned rows with those row-ids, and no other records.
proof fn lemma_lookups_find_scanned_rows(
    file: Seq<u8>,
    page_size: u16,
    root: u64,
    rowids: Seq<u64>,
    n: nat,
    row: RecordView,
)
    requires
        n <= rowids.len(),
        table_ordered(file, page_size, root, MAX_DEPTH as nat),
        spec_scan(file, page_size, root, MAX_DEPTH as nat) is Ok,
        forall|m: int|
            0 <= m < n ==> exists|k: int|
                0 <= k < spec_scan(file, page_size, root, MAX_DEPTH as nat)->Ok_0.len() && (
                #[trigger] spec_scan(file, page_size, root, MAX_DEPTH as nat)->Ok_0[k]).rowid()
                    == Some(#[trigger] rowids[m]),
    ensures
        looked_up(file, page_size, root, rowids, n) matches Ok(found) && (found.contains(row)
            <==> exists|m: int, k: int|
            0 <= m < n && 0 <= k < spec_scan(file, page_size, root, MAX_DEPTH as nat)->Ok_0.len()
                && (#[trigger] spec_scan(file, page_size, root, MAX_DEPTH as nat)->Ok_0[k]) == row
                && row.rowid() == Some(#[trigger] rowids[m])),
    decreases n,
{
    let rows = spec_scan(file, page_size, root, MAX_DEPTH as nat)->Ok_0;
    if n > 0 {
        let last = (n - 1) as int;
        lemma_lookups_find_scanned_rows(file, page_size, root, rowids, (n - 1) as nat, row);
        let before = looked_up(file, page_size, root, rowids, (n - 1) as nat)->Ok_0;
        let k = choose|k: int| 0 <= k < rows.len() && (#[trigger] rows[k]).rowid() == Some(
            rowids[last],
        );
        lemma_lookup_finds_scanned_row(file, page_size, root, MAX_DEPTH as nat, k);
        let found = before + seq![rows[k]];
        assert(looked_up(file, page_size, root, rowids, n) == Ok::<Seq<RecordView>, Error>(found));
        assert(found[before.len() as int] == rows[k]);
        if found.contains(row) {
            let at = choose|at: int| 0 <= at < found.len() && found[at] == row;
            if at < before.len() {
                assert(before[at] == row);
                assert(before.contains(row));
            } else {
                assert(rows[k] == row && row.rowid() == Some(rowids[last]));
            }
        }
        if exists|m: int, j: int|
            0 <= m < n && 0 <= j < rows.len() && (#[trigger] rows[j]) == row && row.rowid()
                == Some(#[trigger] rowids[m]) {
            let (m, j) = choose|m: int, j: int|
                0 <= m < n && 0 <= j < rows.len() && (#[trigger] rows[j]) == row && row.rowid()
                    == Some(#[trigger] rowids[m]);
            if m == last {
                lemma_lookup_finds_scanned_row(file, page_size, root, MAX_DEPTH as nat, j);
                assert(seq![rows[j]] == seq![rows[k]]);
                assert(seq![rows[j]][0] == seq![rows[k]][0]);
                assert(found[before.len() as int] == row);
            } else {
                assert(rows[j] == row && row.rowid() == Some(rowids[m]));
                assert(before.contains(row));
                let at = choose|at: int| 0 <= at < before.len() && before[at] == row;
                assert(found[at] == row);
            }
        }
    }
}

/// A scanned row has a row-id.
proof fn lemma_scanned_row_has_rowid(file: Seq<u8>, page_size: u16, root: u64, k: int)
    requires
        table_ordered(file, page_size, root, MAX_DEPTH as nat),
        spec_scan(file, page_size, root, MAX_DEPTH as nat) matches Ok(rows) && 0 <= k < rows.len(),
    ensures
        spec_scan(file, page_size, root, MAX_DEPTH as nat)->Ok_0[k].rowid() is Some,
{
    lemma_lookup_finds_scanned_row(file, page_size, root, MAX_DEPTH as nat, k);
}

/// Where the table is in order and every chosen index is an index of the
/// table, the rows of which the answer is made are the same whether the
/// planner probes indexes or scans the table: a row is kept from the
/// candidates exactly where it is kept from the scan.
pub proof fn lemma_planner_agrees_with_scan(
    file: Seq<u8>,
    page_size: u16,
    schema: Seq<ElementView>,
    root: u64,
    table_name: Seq<char>,
    table: TableSchemaView,
    clauses: Seq<WhereView>,
    row: RecordView,
)
    requires
        table_ordered(file, page_size, root, MAX_DEPTH as nat),
        spec_scan(file, page_size, root, MAX_DEPTH as nat) is Ok,
        conditions(table, clauses, clauses.len()) is Ok,
        indexes_serve(
            file,
            page_size,
            schema,
            table_name,
            clauses,
            conditions(table, clauses, clauses.len())->Ok_0,
            spec_scan(file, page_size, root, MAX_DEPTH as nat)->Ok_0,
        ),
    ensures
        candidate_rows(file, page_size, schema, root, table_name, clauses) matches Ok(candidates)
            && (kept_rows(
            candidates,
            conditions(table, clauses, clauses.len())->Ok_0,
            candidates.len(),
        ).contains(row) <==> kept_rows(
            spec_scan(file, page_size, root, MAX_DEPTH as nat)->Ok_0,
            conditions(table, clauses, clauses.len())->Ok_0,
            spec_scan(file, page_size, root, MAX_DEPTH as nat)->Ok_0.len(),
        ).contains(row)),
{
    let rows = spec_scan(file, page_size, root, MAX_DEPTH as nat)->Ok_0;
    let conds = conditions(table, clauses, clauses.len())->Ok_0;
    lemma_conditions_follow_clauses(table, clauses, clauses.len());
    lemma_probes_give_matching_rowids(
        file,
        page_size,
        schema,
        table_name,
        clauses,
        conds,
        root,
        clauses.len(),
    );
    let lists = probes(file, page_size, schema, table_name, clauses, clauses.len())->Ok_0;
    if lists.len() > 0 {
        let rowids = survivors(lists, lists[0].len());
        let first = choose|k: int|
            0 <= k < clauses.len() && (#[trigger] chosen_index(
                schema,
                table_name,
                clauses[k].column,
                0,
            )) is Some;
        assert forall|m: int| 0 <= m < rowids.len() implies exists|k: int|
            0 <= k < rows.len() && (#[trigger] rows[k]).rowid() == Some(
                #[trigger] rowids[m],
            ) by {
            let id = rowids[m];
            assert(rowids.contains(id));
            lemma_survivors_in_every_list(lists, id);
            assert(meets_indexed(
                schema,
                table_name,
                clauses,
                conds,
                rows,
                clauses.len() as int,
                id,
            ));
            assert(chosen_index(schema, table_name, clauses[first].column, 0) is Some);
            assert(row_has(rows, conds[first].column as int, clauses[first].value, id)) by {
                reveal(meets_indexed);
            }
            lemma_row_has_gives_row(rows, conds[first].column as int, clauses[first].value, id);
            let r = choose|r: int| 0 <= r < rows.len() && (#[trigger] rows[r]).rowid() == Some(id);
            assert(rows[r].rowid() == Some(rowids[m]));
        }
        lemma_lookups_find_scanned_rows(file, page_size, root, rowids, rowids.len(), row);
        let candidates = looked_up(file, page_size, root, rowids, rowids.len())->Ok_0;
        lemma_kept_rows(candidates, conds, candidates.len(), row);
        lemma_kept_rows(rows, conds, rows.len(), row);
        if kept_rows(candidates, conds, candidates.len()).contains(row) {
            let at = choose|at: int| 0 <= at < candidates.len() && candidates[at] == row;
            assert(candidates.contains(row));
            let (m, k) = choose|m: int, k: int|
                0 <= m < rowids.len() && 0 <= k < rows.len() && (#[trigger] rows[k]) == row
                    && row.rowid() == Some(#[trigger] rowids[m]);
            assert(rows[k] == row);
        }
        if kept_rows(rows, conds, rows.len()).contains(row) {
            let k = choose|k: int| 0 <= k < rows.len() && rows[k] == row;
            lemma_scanned_row_has_rowid(file, page_size, root, k);
            let id = row.rowid()->Some_0;
            assert forall|c: int| 0 <= c < clauses.len() implies (#[trigger] chosen_index(
                schema,
                table_name,
                clauses[c].column,
                0,
            ) is Some ==> row_has(rows, conds[c].column as int, clauses[c].value, id)) by {
                assert(holds(row, conds[c]));
                assert(rows[k].rowid() == Some(id));
                lemma_row_that_holds(rows, k, conds[c], id);
            }
            assert(meets_indexed(
                schema,
                table_name,
                clauses,
                conds,
                rows,
                clauses.len() as int,
                id,
            )) by {
                reveal(meets_indexed);
            }
            lemma_survivors_in_every_list(lists, id);
            assert(rowids.contains(id));
            let m = choose|m: int| 0 <= m < rowids.len() && rowids[m] == id;
            assert(rows[k] == row && row.rowid() == Some(rowids[m]));
            assert(candidates.contains(row));
            let at = choose|at: int| 0 <= at < candidates.len() && candidates[at] == row;
            assert(candidates[at] == row);
        }
    }
}

/// Where the table is in order and every chosen index is an index of the
/// table, the rows that answer a conjunction of clauses are those that
/// answer its first part and also answer its second part.
pub proof fn lemma_answer_to_conjunction(
    file: Seq<u8>,
    page_size: u16,
    schema: Seq<ElementView>,
    root: u64,
    table_name: Seq<char>,
    table: TableSchemaView,
    a: Seq<WhereView>,
    b: Seq<WhereView>,
    row: RecordView,
)
    requires
        table_ordered(file, page_size, root, MAX_DEPTH as nat),
        spec_scan(file, page_size, root, MAX_DEPTH as nat) is Ok,
        conditions(table, a + b, (a + b).len()) is Ok,
        indexes_serve(
            file,
            page_size,
            schema,
            table_name,
            a + b,
            conditions(table, a + b, (a + b).len())->Ok_0,
            spec_scan(file, page_size, root, MAX_DEPTH as nat)->Ok_0,
        ),
    ensures
        conditions(table, a, a.len()) is Ok,
        conditions(table, b, b.len()) is Ok,
        candidate_rows(file, page_size, schema, root, table_name, a + b) is Ok,
        candidate_rows(file, page_size, schema, root, table_name, a) is Ok,
        candidate_rows(file, page_size, schema, root, table_name, b) is Ok,
        answer_rows(file, page_size, schema, root, table_name, table, a + b).contains(row)
            <==> answer_rows(file, page_size, schema, root, table_name, table, a).contains(row)
            && answer_rows(file, page_size, schema, root, table_name, table, b).contains(row),
{
    let rows = spec_scan(file, page_size, root, MAX_DEPTH as nat)->Ok_0;
    let both = conditions(table, a + b, (a + b).len())->Ok_0;
    lemma_conditions_of_parts(table, a, b, (a + b).len());
    let first = conditions(table, a, a.len())->Ok_0;
    let second = conditions(table, b, b.len())->Ok_0;
    lemma_conditions_follow_clauses(table, a + b, (a + b).len());
    lemma_conditions_follow_clauses(table, a, a.len());
    lemma_conditions_follow_clauses(table, b, b.len());
    assert(indexes_serve(file, page_size, schema, table_name, a, first, rows)) by {
        assert forall|k: int| 0 <= k < a.len() implies (#[trigger] chosen_index(
            schema,
            table_name,
            a[k].column,
            0,
        ) matches Some(index_root) ==> index_serves(
            file,
            page_size,
            index_root,
            rows,
            first[k].column as int,
        )) by {
            assert((a + b)[k] == a[k]);
            assert(both[k] == first[k]);
            assert(chosen_index(schema, table_name, (a + b)[k].column, 0) == chosen_index(
                schema,
                table_name,
                a[k].column,
                0,
            ));
        }
    }
    assert(indexes_serve(file, page_size, schema, table_name, b, second, rows)) by {
        assert forall|k: int| 0 <= k < b.len() implies (#[trigger] chosen_index(
            schema,
            table_name,
            b[k].column,
            0,
        ) matches Some(index_root) ==> index_serves(
            file,
            page_size,
            index_root,
            rows,
            second[k].column as int,
        )) by {
            assert((a + b)[a.len() + k] == b[k]);
            assert(both[a.len() + k] == second[k]);
            assert(chosen_index(schema, table_name, (a + b)[a.len() + k].column, 0)
                == chosen_index(schema, table_name, b[k].column, 0));
        }
    }
    lemma_planner_agrees_with_scan(file, page_size, schema, root, table_name, table, a + b, row);
    lemma_planner_agrees_with_scan(file, page_size, schema, root, table_name, table, a, row);
    lemma_planner_agrees_with_scan(file, page_size, schema, root, table_name, table, b, row);
    lemma_kept_rows(rows, both, rows.len(), row);
    lemma_kept_rows(rows, first, rows.len(), row);
    lemma_kept_rows(rows, second, rows.len(), row);
    lemma_where_conjunction(row, first, second);
}

/// The rows that answer the clauses: those of the candidate rows that meet
/// the conditions of the clauses.
pub open spec fn answer_rows(
    file: Seq<u8>,
    page_size: u16,
    schema: Seq<ElementView>,
    root: u64,
    table_name: Seq<char>,
    table: TableSchemaView,
    clauses: Seq<WhereView>,
) -> Seq<RecordView> {
    let candidates = candidate_rows(file, page_size, schema, root, table_name, clauses)->Ok_0;
    kept_rows(candidates, conditions(table, clauses, clauses.len())->Ok_0, candidates.len())
}

/// The conditions of two lists of clauses in a row are those of the first
/// list and then those of the second.
pub proof fn lemma_conditions_of_parts(
    table: TableSchemaView,
    a: Seq<WhereView>,
    b: Seq<WhereView>,
    n: nat,
)
    requires
        n <= (a + b).len(),
        conditions(table, a + b, n) is Ok,
    ensures
        n <= a.len() ==> conditions(table, a, n) == conditions(table, a + b, n),
        n >= a.len() ==> conditions(table, a, a.len()) is Ok && conditions(
            table,
            b,
            (n - a.len()) as nat,
        ) is Ok && conditions(table, a + b, n)->Ok_0 == conditions(table, a, a.len())->Ok_0
            + conditions(table, b, (n - a.len()) as nat)->Ok_0,
    decreases n,
{
    if n > 0 {
        lemma_conditions_of_parts(table, a, b, (n - 1) as nat);
        if n <= a.len() {
            assert((a + b)[n - 1] == a[n - 1]);
        } else {
            assert((a + b)[n - 1] == b[n - 1 - a.len()]);
            let first = conditions(table, a, a.len())->Ok_0;
            let before = conditions(table, b, (n - 1 - a.len()) as nat)->Ok_0;
            let now = conditions(table, b, (n - a.len()) as nat)->Ok_0;
            assert(first + now =~= (first + before).push(now[now.len() - 1]));
        }
    } else {
        assert(conditions(table, a + b, 0)->Ok_0 =~= conditions(table, a, 0)->Ok_0 + conditions(
            table,
            b,
            0,
        )->Ok_0);
    }
}

} // verus!
