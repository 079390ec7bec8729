//! What holds of the answers: a conjunction of conditions keeps the rows
//! that each condition keeps, the row-ids that survive the probes are those
//! that every probe gave, and the answer is a function of the file and the
//! query.

use crate::error::{yields, Error};
use crate::query::{
    compared, holds, in_all, output_lines, row_check, row_line, row_matches, spec_select,
    survivors, ConditionView, Projected,
};
use crate::record::RecordView;
use crate::schema::ElementView;
use crate::syntax::select::SelectView;
use vstd::prelude::*;

verus! {

/// A row meets the conditions `a` and `b` together exactly where it meets
/// those of `a` and those of `b`.
pub proof fn lemma_where_conjunction(row: RecordView, a: Seq<ConditionView>, b: Seq<ConditionView>)
    ensures
        row_matches(row, a + b) <==> row_matches(row, a) && row_matches(row, b),
{
    if row_matches(row, a + b) {
        assert forall|k: int| 0 <= k < a.len() implies holds(row, #[trigger] a[k]) by {
            assert((a + b)[k] == a[k]);
        }
        assert forall|k: int| 0 <= k < b.len() implies holds(row, #[trigger] b[k]) by {
            assert((a + b)[a.len() + k] == b[k]);
        }
    }
    if row_matches(row, a) && row_matches(row, b) {
        assert forall|k: int| 0 <= k < (a + b).len() implies holds(row, #[trigger] (a + b)[k]) by {
            if k < a.len() {
                assert((a + b)[k] == a[k]);
            } else {
                assert((a + b)[k] == b[k - a.len()]);
            }
        }
    }
}

/// The check of a row says that the row is kept exactly where the row
/// meets every one of the conditions.
pub proof fn lemma_check_keeps_matching_rows(row: RecordView, conds: Seq<ConditionView>)
    ensures
        row_check(row, conds, 0) == Ok::<bool, Error>(true) <==> row_matches(row, conds),
{
    lemma_check_from(row, conds, 0);
}

proof fn lemma_check_from(row: RecordView, conds: Seq<ConditionView>, i: int)
    requires
        0 <= i,
    ensures
        row_check(row, conds, i) == Ok::<bool, Error>(true) <==> forall|k: int|
            i <= k < conds.len() ==> holds(row, #[trigger] conds[k]),
    decreases conds.len() - i,
{
    if i < conds.len() {
        lemma_check_from(row, conds, i + 1);
        if compared(row, conds[i]) == Ok::<bool, Error>(true) {
            assert(holds(row, conds[i]));
            if forall|k: int| i + 1 <= k < conds.len() ==> holds(row, #[trigger] conds[k]) {
                assert forall|k: int| i <= k < conds.len() implies holds(
                    row,
                    #[trigger] conds[k],
                ) by {}
            }
        } else {
            assert(!holds(row, conds[i]));
        }
    }
}

/// The rows of which the first `n` rows give a line.
pub open spec fn kept_rows(rows: Seq<RecordView>, conds: Seq<ConditionView>, n: nat) -> Seq<
    RecordView,
>
    decreases n,
{
    if n == 0 {
        Seq::empty()
    } else if row_matches(rows[n - 1], conds) {
        kept_rows(rows, conds, (n - 1) as nat).push(rows[n - 1])
    } else {
        kept_rows(rows, conds, (n - 1) as nat)
    }
}

/// A row is kept exactly where it is among the rows and meets the
/// conditions.
pub proof fn lemma_kept_rows(rows: Seq<RecordView>, conds: Seq<ConditionView>, n: nat, row: RecordView)
    requires
        n <= rows.len(),
    ensures
        kept_rows(rows, conds, n).contains(row) <==> row_matches(row, conds) && exists|k: int|
            0 <= k < n && rows[k] == row,
    decreases n,
{
    if n > 0 {
        let before = kept_rows(rows, conds, (n - 1) as nat);
        lemma_kept_rows(rows, conds, (n - 1) as nat, row);
        if row_matches(rows[n - 1], conds) {
            assert(before.push(rows[n - 1])[before.len() as int] == rows[n - 1]);
            if kept_rows(rows, conds, n).contains(row) {
                let at = choose|at: int|
                    0 <= at < kept_rows(rows, conds, n).len() && kept_rows(rows, conds, n)[at]
                        == row;
                if at < before.len() {
                    assert(before[at] == row);
                }
            }
            if before.contains(row) {
                let at = choose|at: int| 0 <= at < before.len() && before[at] == row;
                assert(before.push(rows[n - 1])[at] == row);
            }
        }
    }
}

/// The rows that the conditions `a` and `b` keep together are those that
/// `a` keeps and `b` keeps: the answer to a conjunction is the intersection
/// of the answers to its parts.
pub proof fn lemma_conjunction_intersects(
    rows: Seq<RecordView>,
    a: Seq<ConditionView>,
    b: Seq<ConditionView>,
    row: RecordView,
)
    ensures
        kept_rows(rows, a + b, rows.len()).contains(row) <==> kept_rows(
            rows,
            a,
            rows.len(),
        ).contains(row) && kept_rows(rows, b, rows.len()).contains(row),
{
    lemma_kept_rows(rows, a + b, rows.len(), row);
    lemma_kept_rows(rows, a, rows.len(), row);
    lemma_kept_rows(rows, b, rows.len(), row);
    lemma_where_conjunction(row, a, b);
}

/// The lines of the first `n` rows, one for each.
pub open spec fn lines_of(rows: Seq<RecordView>, plan: Seq<Projected>, n: nat) -> Result<
    Seq<Seq<char>>,
    Error,
>
    decreases n,
{
    if n == 0 {
        Ok(Seq::empty())
    } else {
        match lines_of(rows, plan, (n - 1) as nat) {
            Err(e) => Err(e),
            Ok(lines) => match row_line(rows[n - 1], plan) {
                Err(e) => Err(e),
                Ok(line) => Ok(lines.push(line)),
            },
        }
    }
}

proof fn lemma_lines_of_prefix(a: Seq<RecordView>, b: Seq<RecordView>, plan: Seq<Projected>, n: nat)
    requires
        n <= a.len(),
        n <= b.len(),
        forall|k: int| 0 <= k < n ==> a[k] == b[k],
    ensures
        lines_of(a, plan, n) == lines_of(b, plan, n),
    decreases n,
{
    if n > 0 {
        lemma_lines_of_prefix(a, b, plan, (n - 1) as nat);
    }
}

/// Where the rows can be checked and laid out, the lines of the answer are
/// the lines of the rows that meet the conditions, in their order.
pub proof fn lemma_lines_of_kept_rows(
    rows: Seq<RecordView>,
    conds: Seq<ConditionView>,
    plan: Seq<Projected>,
    n: nat,
)
    ensures
        output_lines(rows, conds, plan, n) matches Ok(lines) ==> lines_of(
            kept_rows(rows, conds, n),
            plan,
            kept_rows(rows, conds, n).len(),
        ) == Ok::<Seq<Seq<char>>, Error>(lines),
    decreases n,
{
    if n > 0 {
        lemma_lines_of_kept_rows(rows, conds, plan, (n - 1) as nat);
        lemma_check_keeps_matching_rows(rows[n - 1], conds);
        let before = kept_rows(rows, conds, (n - 1) as nat);
        if row_matches(rows[n - 1], conds) {
            lemma_lines_of_prefix(before.push(rows[n - 1]), before, plan, before.len());
        }
    }
}

/// The row-ids that survive are those of the first list that every other
/// list holds too, and none of them survives twice.
pub proof fn lemma_survivors(lists: Seq<Seq<u64>>, n: nat, x: u64)
    requires
        lists.len() > 0,
        n <= lists[0].len(),
    ensures
        survivors(lists, n).contains(x) <==> in_all(x, lists, 1) && exists|k: int|
            0 <= k < n && lists[0][k] == x,
        forall|a: int, b: int|
            0 <= a < b < survivors(lists, n).len() ==> survivors(lists, n)[a] != survivors(
                lists,
                n,
            )[b],
    decreases n,
{
    if n > 0 {
        let before = survivors(lists, (n - 1) as nat);
        let last = lists[0][n - 1];
        lemma_survivors(lists, (n - 1) as nat, x);
        lemma_survivors(lists, (n - 1) as nat, last);
        if in_all(last, lists, 1) && !before.contains(last) {
            let now = before.push(last);
            assert(now[before.len() as int] == last);
            if now.contains(x) {
                let at = choose|at: int| 0 <= at < now.len() && now[at] == x;
                if at < before.len() {
                    assert(before[at] == x);
                }
            }
            if before.contains(x) {
                let at = choose|at: int| 0 <= at < before.len() && before[at] == x;
                assert(now[at] == x);
            }
            assert forall|a: int, b: int| 0 <= a < b < now.len() implies now[a] != now[b] by {
                if b == before.len() {
                    assert(before[a] == now[a]);
                    assert(before.contains(now[a]));
                }
            }
        }
    }
}

/// Where the probes gave one list for each clause, a row-id survives
/// exactly where every probe gave it.
pub proof fn lemma_survivors_in_every_list(lists: Seq<Seq<u64>>, x: u64)
    requires
        lists.len() > 0,
    ensures
        survivors(lists, lists[0].len()).contains(x) <==> in_all(x, lists, 0),
{
    lemma_survivors(lists, lists[0].len(), x);
    if in_all(x, lists, 0) {
        assert(lists[0].contains(x));
    }
    if survivors(lists, lists[0].len()).contains(x) {
        assert forall|k: int| 0 <= k < lists.len() implies (#[trigger] lists[k]).contains(x) by {
            if k == 0 {
                let at = choose|at: int| 0 <= at < lists[0].len() && lists[0][at] == x;
                assert(lists[0][at] == x);
            }
        }
    }
}

/// Two answers to the same query on the same file are the same, line by
/// line and character by character.
pub proof fn lemma_select_is_deterministic(
    file: Seq<u8>,
    page_size: u16,
    schema: Seq<ElementView>,
    stmt: SelectView,
    first: Result<Vec<String>, Error>,
    second: Result<Vec<String>, Error>,
)
    requires
        yields(first, spec_select(file, page_size, schema, stmt)),
        yields(second, spec_select(file, page_size, schema, stmt)),
    ensures
        match (first, second) {
            (Ok(a), Ok(b)) => a.deep_view() == b.deep_view(),
            (Err(e), Err(f)) => e == f,
            _ => false,
        },
{
}

} // verus!
