//! What holds of the walks over a table B-tree: the scan finds as many
//! records as the leaves have cells, and in a tree whose keys part the
//! row-ids among the children, the lookup of a scanned record's row-id finds
//! that record and no other.

use crate::btree::{
    left_child, spec_count, spec_leaf_page, spec_count_children, spec_leaf_matches, spec_leaf_records,
    spec_lookup, spec_lookup_child, spec_scan, spec_scan_children, table_interior_cell,
    TABLE_INTERIOR, TABLE_LEAF,
};
use crate::error::Error;
use crate::page_io::{lemma_parsed_page_wf, page_bytes, spec_load_page, PageView};
use crate::record::{spec_read_record, CellShape, RecordView};
use vstd::prelude::*;

verus! {

/// A page that loads has one pointer for each cell that its header counts.
pub proof fn lemma_loaded_page_wf(file: Seq<u8>, page_size: u16, p: u64)
    ensures
        spec_load_page(file, page_size, p) matches Ok(page) ==> page.wf() && page.parsed(),
{
    if let Some(data) = page_bytes(file, page_size, p) {
        lemma_parsed_page_wf(p, data);
    }
}

proof fn lemma_leaf_records_len(file: Seq<u8>, page_size: u16, page: PageView, i: nat)
    requires
        i <= page.pointers.len(),
    ensures
        spec_leaf_records(file, page_size, page, i) matches Ok(records) ==> records.len()
            == page.pointers.len() - i,
    decreases page.pointers.len() - i,
{
    if i < page.pointers.len() {
        lemma_leaf_records_len(file, page_size, page, i + 1);
    }
}

proof fn lemma_children_count(file: Seq<u8>, page_size: u16, page: PageView, i: nat, depth: nat)
    ensures
        spec_scan_children(file, page_size, page, i, depth) matches Ok(records)
            ==> spec_count_children(file, page_size, page, i, depth) == Ok::<nat, Error>(
            records.len(),
        ),
    decreases depth, 1nat, page.pointers.len() + 1 - i,
{
    if i == page.pointers.len() {
        if let Some(right) = page.header.rightmost_pointer {
            lemma_scan_counts_leaf_cells(file, page_size, right as u64, depth);
        }
    } else if i < page.pointers.len() {
        if let Ok(child) = left_child(page.data, page.pointers[i as int] as int) {
            lemma_scan_counts_leaf_cells(file, page_size, child, depth);
            lemma_children_count(file, page_size, page, i + 1, depth);
        }
    }
}

/// Where the scan of a table succeeds, it holds as many records as the
/// leaves under the root have cells.
pub proof fn lemma_scan_counts_leaf_cells(file: Seq<u8>, page_size: u16, p: u64, depth: nat)
    ensures
        spec_scan(file, page_size, p, depth) matches Ok(records) ==> spec_count(
            file,
            page_size,
            p,
            depth,
        ) == Ok::<nat, Error>(records.len()),
    decreases depth, 0nat, 0nat,
{
    if depth > 0 {
        lemma_loaded_page_wf(file, page_size, p);
        if let Ok(page) = spec_load_page(file, page_size, p) {
            if page.header.page_type == TABLE_INTERIOR {
                lemma_children_count(file, page_size, page, 0, (depth - 1) as nat);
            } else if page.header.page_type == TABLE_LEAF {
                lemma_leaf_records_len(file, page_size, page, 0);
            }
        }
    }
}

/// The lookup of a row-id gives the records with that row-id on the leaf
/// page on which the search for it ends.
pub proof fn lemma_lookup_reads_the_leaf(
    file: Seq<u8>,
    page_size: u16,
    p: u64,
    rowid: u64,
    depth: nat,
)
    ensures
        spec_lookup(file, page_size, p, rowid, depth) == match spec_leaf_page(
            file,
            page_size,
            p,
            rowid,
            depth,
        ) {
            Err(e) => Err::<Seq<RecordView>, Error>(e),
            Ok(leaf) => spec_leaf_matches(
                file,
                page_size,
                spec_load_page(file, page_size, leaf)->Ok_0,
                rowid,
                0,
            ),
        },
    decreases depth,
{
    if depth > 0 {
        if let Ok(page) = spec_load_page(file, page_size, p) {
            if page.header.page_type == TABLE_INTERIOR {
                if let Ok(child) = spec_lookup_child(page, rowid, 0) {
                    lemma_lookup_reads_the_leaf(file, page_size, child, rowid, (depth - 1) as nat);
                }
            }
        }
    }
}

/// The page under the `j`-th child pointer of an interior page; the pointer
/// behind those of the cells is the rightmost pointer.
pub open spec fn spec_child(page: PageView, j: int) -> Result<u64, Error> {
    if j < page.pointers.len() {
        left_child(page.data, page.pointers[j] as int)
    } else {
        match page.header.rightmost_pointer {
            Some(right) => Ok(right as u64),
            None => Err(Error::Decode),
        }
    }
}

/// The key of cell `i` of a table interior page.
pub open spec fn spec_key(page: PageView, i: int) -> u64 {
    match table_interior_cell(page.data, page.pointers[i] as int) {
        Ok((_, key)) => key,
        Err(_) => 0,
    }
}

/// Whether a record stands on the right side of a key: above it where the
/// key's cell is left of the record's child, and not above it otherwise.
pub open spec fn in_place(record: RecordView, key: u64, key_is_left: bool) -> bool {
    match record.rowid() {
        Some(id) => if key_is_left {
            key < id
        } else {
            id <= key
        },
        None => false,
    }
}

/// The keys of the table B-tree under page `p` part the row-ids among the
/// children: each record under a child lies above the keys of the cells left
/// of that child and not above the keys from the child's own cell on; and no
/// row-id is twice on a leaf.
pub open spec fn table_ordered(file: Seq<u8>, page_size: u16, p: u64, depth: nat) -> bool
    decreases depth, 0nat,
{
    depth > 0 && match spec_load_page(file, page_size, p) {
        Err(_) => false,
        Ok(page) => if page.header.page_type == TABLE_INTERIOR {
            children_ordered(file, page_size, page, (depth - 1) as nat)
        } else if page.header.page_type == TABLE_LEAF {
            leaf_distinct(file, page_size, page)
        } else {
            false
        },
    }
}

/// No row-id is twice among the records of a leaf.
pub open spec fn leaf_distinct(file: Seq<u8>, page_size: u16, page: PageView) -> bool {
    spec_leaf_records(file, page_size, page, 0) matches Ok(records) ==> distinct_rowids(records)
}

/// No row-id is twice among `records`.
pub open spec fn distinct_rowids(records: Seq<RecordView>) -> bool {
    forall|a: int, b: int|
        0 <= a < b < records.len() ==> (#[trigger] records[a]).rowid() != (
        #[trigger] records[b]).rowid()
}

/// Every cell of an interior page has a key, and every child is in order.
pub open spec fn children_ordered(file: Seq<u8>, page_size: u16, page: PageView, depth: nat) -> bool
    decreases depth, 2nat,
{
    &&& forall|i: int|
        0 <= i < page.pointers.len() ==> (#[trigger] table_interior_cell(
            page.data,
            page.pointers[i] as int,
        )) is Ok
    &&& forall|j: int|
        #![trigger spec_child(page, j)]
        0 <= j <= page.pointers.len() ==> child_ordered(file, page_size, page, j, depth)
}

/// The tree under the `j`-th child is in order, and its records lie between
/// the keys of the cells left of it and those from its own cell on.
pub open spec fn child_ordered(
    file: Seq<u8>,
    page_size: u16,
    page: PageView,
    j: int,
    depth: nat,
) -> bool
    decreases depth, 1nat,
{
    match spec_child(page, j) {
        Err(_) => false,
        Ok(child) => table_ordered(file, page_size, child, depth) && match spec_scan(
            file,
            page_size,
            child,
            depth,
        ) {
            Err(_) => true,
            Ok(records) => forall|k: int, i: int|
                0 <= k < records.len() && 0 <= i < page.pointers.len() ==> in_place(
                    #[trigger] records[k],
                    #[trigger] spec_key(page, i),
                    i < j,
                ),
        },
    }
}

/// A record read from a table leaf cell has a row-id.
pub proof fn lemma_table_leaf_record_has_rowid(
    file: Seq<u8>,
    page_size: u16,
    page: PageView,
    i: int,
)
    ensures
        spec_read_record(file, page_size, page, i, CellShape::TableLeaf) matches Ok(record)
            ==> record.rowid() is Some,
{
}

proof fn lemma_leaf_match(
    file: Seq<u8>,
    page_size: u16,
    page: PageView,
    id: u64,
    i: nat,
    records: Seq<RecordView>,
)
    requires
        i <= page.pointers.len(),
        spec_leaf_records(file, page_size, page, i) == Ok::<Seq<RecordView>, Error>(records),
        distinct_rowids(records),
    ensures
        spec_leaf_matches(file, page_size, page, id, i) matches Ok(found) && (forall|k: int|
            0 <= k < records.len() && (#[trigger] records[k]).rowid() == Some(id) ==> found
                == seq![records[k]]) && ((forall|k: int|
            0 <= k < records.len() ==> (#[trigger] records[k]).rowid() != Some(id)) ==> found
            == Seq::<RecordView>::empty()),
    decreases page.pointers.len() - i,
{
    if i < page.pointers.len() {
        let first = spec_read_record(file, page_size, page, i as int, CellShape::TableLeaf)->Ok_0;
        let rest = spec_leaf_records(file, page_size, page, i + 1)->Ok_0;
        assert(records =~= seq![first] + rest);
        assert(records[0] == first);
        assert forall|a: int, b: int| 0 <= a < b < rest.len() implies (#[trigger] rest[a]).rowid()
            != (#[trigger] rest[b]).rowid() by {
            assert(rest[a] == records[a + 1]);
            assert(rest[b] == records[b + 1]);
        }
        lemma_leaf_match(file, page_size, page, id, i + 1, rest);
        let found_rest = spec_leaf_matches(file, page_size, page, id, i + 1)->Ok_0;
        if first.rowid() == Some(id) {
            assert forall|k: int| 0 <= k < rest.len() implies (#[trigger] rest[k]).rowid()
                != Some(id) by {
                assert(rest[k] == records[k + 1]);
            }
            assert(seq![first] + found_rest =~= seq![first]);
            assert forall|k: int|
                0 <= k < records.len() && (#[trigger] records[k]).rowid() == Some(
                    id,
                ) implies seq![first] == seq![records[k]] by {
                if k > 0 {
                    assert(records[0].rowid() != records[k].rowid());
                }
            }
        } else {
            assert(Seq::<RecordView>::empty() + found_rest =~= found_rest);
            assert forall|k: int|
                0 <= k < records.len() && (#[trigger] records[k]).rowid() == Some(
                    id,
                ) implies found_rest == seq![records[k]] by {
                assert(k > 0);
                assert(rest[k - 1] == records[k]);
            }
            if forall|k: int|
                0 <= k < records.len() ==> (#[trigger] records[k]).rowid() != Some(id) {
                assert forall|k: int| 0 <= k < rest.len() implies (#[trigger] rest[k]).rowid()
                    != Some(id) by {
                    assert(rest[k] == records[k + 1]);
                }
            }
        }
    } else {
        assert(records =~= Seq::<RecordView>::empty());
    }
}

/// The child under which the `k`-th record of the scan from cell `i` on
/// lies, and the record's place in the scan of that child.
proof fn lemma_locate(
    file: Seq<u8>,
    page_size: u16,
    page: PageView,
    i: nat,
    depth: nat,
    k: int,
) -> (at: (int, int))
    requires
        i <= page.pointers.len(),
        spec_scan_children(file, page_size, page, i, depth) matches Ok(records) && 0 <= k
            < records.len(),
    ensures
        i <= at.0 <= page.pointers.len(),
        spec_child(page, at.0) matches Ok(child) && (spec_scan(file, page_size, child, depth)
            matches Ok(under) && 0 <= at.1 < under.len() && under[at.1] == spec_scan_children(
            file,
            page_size,
            page,
            i,
            depth,
        )->Ok_0[k]),
    decreases page.pointers.len() - i,
{
    if i == page.pointers.len() {
        (i as int, k)
    } else {
        let child = left_child(page.data, page.pointers[i as int] as int)->Ok_0;
        let under = spec_scan(file, page_size, child, depth)->Ok_0;
        if k < under.len() {
            (i as int, k)
        } else {
            lemma_locate(file, page_size, page, i + 1, depth, k - under.len())
        }
    }
}

/// The search for a row-id that lies in place under the `j`-th child goes
/// down into that child.
proof fn lemma_choose_child(page: PageView, id: u64, i: nat, j: int)
    requires
        i <= j <= page.pointers.len(),
        forall|c: int|
            0 <= c < page.pointers.len() ==> (#[trigger] table_interior_cell(
                page.data,
                page.pointers[c] as int,
            )) is Ok,
        forall|c: int|
            0 <= c < page.pointers.len() ==> if c < j {
                #[trigger] spec_key(page, c) < id
            } else {
                id <= spec_key(page, c)
            },
        spec_child(page, j) is Ok,
    ensures
        spec_lookup_child(page, id, i) == spec_child(page, j),
    decreases j - i,
{
    if i < page.pointers.len() {
        assert(table_interior_cell(page.data, page.pointers[i as int] as int) is Ok);
        let key = spec_key(page, i as int);
        if i < j {
            assert(key < id);
            lemma_choose_child(page, id, i + 1, j);
        } else {
            assert(id <= key);
        }
    }
}

/// In a table whose keys part the row-ids among the children, the lookup of
/// the row-id of any record that the scan finds gives that record and no
/// other.
pub proof fn lemma_lookup_finds_scanned_row(
    file: Seq<u8>,
    page_size: u16,
    p: u64,
    depth: nat,
    k: int,
)
    requires
        table_ordered(file, page_size, p, depth),
        spec_scan(file, page_size, p, depth) matches Ok(records) && 0 <= k < records.len(),
    ensures
        spec_scan(file, page_size, p, depth)->Ok_0[k].rowid() matches Some(id) && spec_lookup(
            file,
            page_size,
            p,
            id,
            depth,
        ) == Ok::<Seq<RecordView>, Error>(seq![spec_scan(file, page_size, p, depth)->Ok_0[k]]),
    decreases depth,
{
    let records = spec_scan(file, page_size, p, depth)->Ok_0;
    let page = spec_load_page(file, page_size, p)->Ok_0;
    lemma_loaded_page_wf(file, page_size, p);
    if page.header.page_type == TABLE_INTERIOR {
        let d = (depth - 1) as nat;
        let (j, kj) = lemma_locate(file, page_size, page, 0, d, k);
        assert(children_ordered(file, page_size, page, d));
        assert(child_ordered(file, page_size, page, j, d));
        let child = spec_child(page, j)->Ok_0;
        let under = spec_scan(file, page_size, child, d)->Ok_0;
        lemma_lookup_finds_scanned_row(file, page_size, child, d, kj);
        let id = under[kj].rowid()->Some_0;
        assert forall|c: int| 0 <= c < page.pointers.len() implies if c < j {
            #[trigger] spec_key(page, c) < id
        } else {
            id <= spec_key(page, c)
        } by {
            assert(in_place(under[kj], spec_key(page, c), c < j));
        }
        lemma_choose_child(page, id, 0, j);
    } else {
        lemma_scanned_leaf_rows_have_ids(file, page_size, page, 0, k);
        let id = records[k].rowid()->Some_0;
        lemma_leaf_match(file, page_size, page, id, 0, records);
    }
}

proof fn lemma_scanned_leaf_rows_have_ids(
    file: Seq<u8>,
    page_size: u16,
    page: PageView,
    i: nat,
    k: int,
)
    requires
        i <= page.pointers.len(),
        spec_leaf_records(file, page_size, page, i) matches Ok(records) && 0 <= k < records.len(),
    ensures
        spec_leaf_records(file, page_size, page, i)->Ok_0[k].rowid() is Some,
    decreases page.pointers.len() - i,
{
    if i < page.pointers.len() {
        lemma_table_leaf_record_has_rowid(file, page_size, page, i as int);
        if k > 0 {
            lemma_scanned_leaf_rows_have_ids(file, page_size, page, i + 1, k - 1);
        }
    }
}

} // verus!
