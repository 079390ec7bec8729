//! What holds of the probe of an index B-tree: in an index whose keys part
//! the entries among the children, the probe for a key gathers the row-ids
//! of exactly the entries with that key, in the order of the tree.

use crate::error::{prepend, Error};
use crate::index::{
    entry_key, entry_rowid, index_cell, spec_index_interior, spec_index_leaf,
    spec_index_scan, INDEX_INTERIOR, INDEX_LEAF,
};
use crate::page_io::{spec_load_page, PageView};
use crate::record::{spec_read_record, CellShape, RecordView};
use crate::text::{lemma_text_order, text_less, text_order, TextOrder};
use crate::typecodes::Datum;
use vstd::prelude::*;

verus! {

/// One entry of an index: a key and the row-id of the row that has it.
pub struct IndexEntry {
    pub key: Seq<char>,
    pub rowid: u64,
}

/// The entries of the cells of an index leaf from cell `i` on.
pub open spec fn spec_leaf_entries(file: Seq<u8>, page_size: u16, page: PageView, i: nat) -> Result<
    Seq<IndexEntry>,
    Error,
>
    decreases page.pointers.len() - i,
{
    if i >= page.pointers.len() {
        Ok(Seq::empty())
    } else {
        match spec_read_record(file, page_size, page, i as int, CellShape::IndexLeaf) {
            Err(e) => Err(e),
            Ok(record) => match entry_key(record) {
                Err(e) => Err(e),
                Ok(key) => match entry_rowid(record) {
                    Err(e) => Err(e),
                    Ok(rowid) => prepend(
                        seq![IndexEntry { key, rowid }],
                        spec_leaf_entries(file, page_size, page, i + 1),
                    ),
                },
            },
        }
    }
}

/// The entries on the leaves of the index B-tree under page `p`, in the
/// order of the tree.
pub open spec fn spec_index_entries(file: Seq<u8>, page_size: u16, p: u64, depth: nat) -> Result<
    Seq<IndexEntry>,
    Error,
>
    decreases depth, 0nat, 0nat,
{
    if depth == 0 {
        Err(Error::Decode)
    } else {
        match spec_load_page(file, page_size, p) {
            Err(e) => Err(e),
            Ok(page) => if page.header.page_type == INDEX_INTERIOR {
                spec_entries_children(file, page_size, page, 0, (depth - 1) as nat)
            } else if page.header.page_type == INDEX_LEAF {
                spec_leaf_entries(file, page_size, page, 0)
            } else {
                Err(Error::Decode)
            },
        }
    }
}

/// The entries under the children of an index interior page from cell `i`
/// on, the rightmost child last.
pub open spec fn spec_entries_children(
    file: Seq<u8>,
    page_size: u16,
    page: PageView,
    i: nat,
    depth: nat,
) -> Result<Seq<IndexEntry>, Error>
    decreases depth, 1nat, page.pointers.len() + 1 - i,
{
    if i > page.pointers.len() {
        Err(Error::Decode)
    } else if i == page.pointers.len() {
        match page.header.rightmost_pointer {
            Some(right) => spec_index_entries(file, page_size, right as u64, depth),
            None => Err(Error::Decode),
        }
    } else {
        match index_cell(file, page_size, page, i as int) {
            Err(e) => Err(e),
            Ok((left, _)) => match spec_index_entries(file, page_size, left, depth) {
                Err(e) => Err(e),
                Ok(entries) => prepend(
                    entries,
                    spec_entries_children(file, page_size, page, i + 1, depth),
                ),
            },
        }
    }
}

/// The row-ids of the entries with the key `key`, in the order of the
/// entries.
pub open spec fn matching_rowids(entries: Seq<IndexEntry>, key: Seq<char>) -> Seq<u64>
    decreases entries.len(),
{
    if entries.len() == 0 {
        Seq::empty()
    } else if entries[0].key == key {
        seq![entries[0].rowid] + matching_rowids(entries.skip(1), key)
    } else {
        matching_rowids(entries.skip(1), key)
    }
}

/// The page under the `j`-th child pointer of an index interior page; the
/// pointer behind those of the cells is the rightmost pointer.
pub open spec fn index_child(file: Seq<u8>, page_size: u16, page: PageView, j: int) -> Result<
    u64,
    Error,
> {
    if j < page.pointers.len() {
        match index_cell(file, page_size, page, j) {
            Ok((left, _)) => Ok(left),
            Err(e) => Err(e),
        }
    } else {
        match page.header.rightmost_pointer {
            Some(right) => Ok(right as u64),
            None => Err(Error::Decode),
        }
    }
}

/// The key of cell `i` of an index interior page.
pub open spec fn index_key(file: Seq<u8>, page_size: u16, page: PageView, i: int) -> Seq<char> {
    index_cell(file, page_size, page, i)->Ok_0.1
}

/// Whether an entry's key stands on the right side of a cell's key: not
/// before it where the cell is left of the entry's child, and not behind it
/// otherwise.
pub open spec fn key_in_place(entry: Seq<char>, cell: Seq<char>, cell_is_left: bool) -> bool {
    if cell_is_left {
        !text_less(entry, cell)
    } else {
        !text_less(cell, entry)
    }
}

/// The keys of the index B-tree under page `p` part the entries among the
/// children: each entry under a child has a key not before the keys of the
/// cells left of that child and not behind the keys from the child's own
/// cell on.
pub open spec fn index_ordered(file: Seq<u8>, page_size: u16, p: u64, depth: nat) -> bool
    decreases depth, 0nat,
{
    depth > 0 && match spec_load_page(file, page_size, p) {
        Err(_) => false,
        Ok(page) => if page.header.page_type == INDEX_INTERIOR {
            index_children_ordered(file, page_size, page, (depth - 1) as nat)
        } else {
            page.header.page_type == INDEX_LEAF
        },
    }
}

/// Every cell of an index interior page can be read, and every child is in
/// order.
pub open spec fn index_children_ordered(
    file: Seq<u8>,
    page_size: u16,
    page: PageView,
    depth: nat,
) -> bool
    decreases depth, 2nat,
{
    &&& forall|i: int|
        0 <= i < page.pointers.len() ==> (#[trigger] index_cell(file, page_size, page, i)) is Ok
    &&& forall|j: int|
        #![trigger index_child(file, page_size, page, j)]
        0 <= j <= page.pointers.len() ==> index_child_ordered(file, page_size, page, j, depth)
}

/// The tree under the `j`-th child is in order, and the keys of its entries
/// lie between the keys of the cells left of it and those from its own cell
/// on.
pub open spec fn index_child_ordered(
    file: Seq<u8>,
    page_size: u16,
    page: PageView,
    j: int,
    depth: nat,
) -> bool
    decreases depth, 1nat,
{
    match index_child(file, page_size, page, j) {
        Err(_) => false,
        Ok(child) => index_ordered(file, page_size, child, depth) && match spec_index_entries(
            file,
            page_size,
            child,
            depth,
        ) {
            Err(_) => true,
            Ok(entries) => forall|k: int, i: int|
                0 <= k < entries.len() && 0 <= i < page.pointers.len() ==> key_in_place(
                    (#[trigger] entries[k]).key,
                    #[trigger] index_key(file, page_size, page, i),
                    i < j,
                ),
        },
    }
}

proof fn lemma_matching_concat(a: Seq<IndexEntry>, b: Seq<IndexEntry>, key: Seq<char>)
    ensures
        matching_rowids(a + b, key) == matching_rowids(a, key) + matching_rowids(b, key),
    decreases a.len(),
{
    if a.len() == 0 {
        assert(a + b =~= b);
        assert(matching_rowids(a, key) + matching_rowids(b, key) =~= matching_rowids(b, key));
    } else {
        assert((a + b).skip(1) =~= a.skip(1) + b);
        lemma_matching_concat(a.skip(1), b, key);
        let rest = matching_rowids(a.skip(1), key);
        let tail = matching_rowids(b, key);
        assert((seq![a[0].rowid] + rest) + tail =~= seq![a[0].rowid] + (rest + tail));
    }
}

proof fn lemma_matching_none(entries: Seq<IndexEntry>, key: Seq<char>)
    requires
        forall|k: int| 0 <= k < entries.len() ==> (#[trigger] entries[k]).key != key,
    ensures
        matching_rowids(entries, key) == Seq::<u64>::empty(),
    decreases entries.len(),
{
    if entries.len() > 0 {
        assert(entries[0].key != key);
        assert forall|k: int| 0 <= k < entries.skip(1).len() implies (#[trigger] entries.skip(
            1,
        )[k]).key != key by {
            assert(entries.skip(1)[k] == entries[k + 1]);
        }
        lemma_matching_none(entries.skip(1), key);
    }
}

/// A row-id is among those of the entries with a key exactly where an entry
/// has that key and that row-id.
pub proof fn lemma_matching_contains(entries: Seq<IndexEntry>, key: Seq<char>, rowid: u64)
    ensures
        matching_rowids(entries, key).contains(rowid) <==> exists|k: int|
            0 <= k < entries.len() && (#[trigger] entries[k]).key == key && entries[k].rowid
                == rowid,
    decreases entries.len(),
{
    if entries.len() > 0 {
        let rest = entries.skip(1);
        lemma_matching_contains(rest, key, rowid);
        let found = matching_rowids(rest, key);
        if matching_rowids(entries, key).contains(rowid) {
            let at = choose|at: int|
                0 <= at < matching_rowids(entries, key).len() && matching_rowids(entries, key)[at]
                    == rowid;
            if entries[0].key == key && at == 0 {
                assert(entries[0].key == key && entries[0].rowid == rowid);
            } else {
                if entries[0].key == key {
                    assert(found[at - 1] == rowid);
                } else {
                    assert(found[at] == rowid);
                }
                assert(found.contains(rowid));
                let k = choose|k: int|
                    0 <= k < rest.len() && (#[trigger] rest[k]).key == key && rest[k].rowid
                        == rowid;
                assert(entries[k + 1] == rest[k]);
            }
        }
        if exists|k: int|
            0 <= k < entries.len() && (#[trigger] entries[k]).key == key && entries[k].rowid
                == rowid {
            let k = choose|k: int|
                0 <= k < entries.len() && (#[trigger] entries[k]).key == key && entries[k].rowid
                    == rowid;
            if k == 0 {
                assert(matching_rowids(entries, key)[0] == rowid);
            } else {
                assert(rest[k - 1] == entries[k]);
                assert(found.contains(rowid));
                let at = choose|at: int| 0 <= at < found.len() && found[at] == rowid;
                if entries[0].key == key {
                    assert(matching_rowids(entries, key)[at + 1] == rowid);
                } else {
                    assert(matching_rowids(entries, key)[at] == rowid);
                }
            }
        }
    }
}

proof fn lemma_leaf_probe(file: Seq<u8>, page_size: u16, page: PageView, key: Seq<char>, i: nat)
    requires
        i <= page.pointers.len(),
        spec_leaf_entries(file, page_size, page, i) is Ok,
    ensures
        spec_index_leaf(file, page_size, page, key, i) == Ok::<Seq<u64>, Error>(
            matching_rowids(spec_leaf_entries(file, page_size, page, i)->Ok_0, key),
        ),
    decreases page.pointers.len() - i,
{
    let entries = spec_leaf_entries(file, page_size, page, i)->Ok_0;
    if i < page.pointers.len() {
        lemma_leaf_probe(file, page_size, page, key, i + 1);
        let rest = spec_leaf_entries(file, page_size, page, i + 1)->Ok_0;
        assert(entries.skip(1) =~= rest);
    }
}

/// The entries under the children from `i` on have keys that are not before
/// the key of a cell left of them.
proof fn lemma_right_of_cell(
    file: Seq<u8>,
    page_size: u16,
    page: PageView,
    i: nat,
    depth: nat,
    c: int,
)
    requires
        0 <= c < i <= page.pointers.len(),
        index_children_ordered(file, page_size, page, depth),
        spec_entries_children(file, page_size, page, i, depth) is Ok,
    ensures
        forall|k: int|
            0 <= k < spec_entries_children(file, page_size, page, i, depth)->Ok_0.len()
                ==> !text_less(
                (#[trigger] spec_entries_children(file, page_size, page, i, depth)->Ok_0[k]).key,
                index_key(file, page_size, page, c),
            ),
    decreases page.pointers.len() - i,
{
    let entries = spec_entries_children(file, page_size, page, i, depth)->Ok_0;
    let child = index_child(file, page_size, page, i as int);
    assert(index_child_ordered(file, page_size, page, i as int, depth));
    let under = spec_index_entries(file, page_size, child->Ok_0, depth)->Ok_0;
    if i < page.pointers.len() {
        lemma_right_of_cell(file, page_size, page, i + 1, depth, c);
        let rest = spec_entries_children(file, page_size, page, i + 1, depth)->Ok_0;
        assert(entries =~= under + rest);
        assert forall|k: int| 0 <= k < entries.len() implies !text_less(
            (#[trigger] entries[k]).key,
            index_key(file, page_size, page, c),
        ) by {
            if k < under.len() {
                assert(key_in_place(under[k].key, index_key(file, page_size, page, c), c < i));
            } else {
                assert(entries[k] == rest[k - under.len()]);
            }
        }
    } else {
        assert forall|k: int| 0 <= k < entries.len() implies !text_less(
            (#[trigger] entries[k]).key,
            index_key(file, page_size, page, c),
        ) by {
            assert(key_in_place(under[k].key, index_key(file, page_size, page, c), c < i));
        }
    }
}

proof fn lemma_interior_probe(
    file: Seq<u8>,
    page_size: u16,
    page: PageView,
    key: Seq<char>,
    i: nat,
    depth: nat,
)
    requires
        i <= page.pointers.len(),
        index_children_ordered(file, page_size, page, depth),
        spec_entries_children(file, page_size, page, i, depth) is Ok,
    ensures
        spec_index_interior(file, page_size, page, key, i, depth) == Ok::<Seq<u64>, Error>(
            matching_rowids(spec_entries_children(file, page_size, page, i, depth)->Ok_0, key),
        ),
    decreases depth, 1nat, page.pointers.len() + 1 - i,
{
    let entries = spec_entries_children(file, page_size, page, i, depth)->Ok_0;
    let child = index_child(file, page_size, page, i as int);
    assert(index_child_ordered(file, page_size, page, i as int, depth));
    let under = spec_index_entries(file, page_size, child->Ok_0, depth)->Ok_0;
    lemma_probe_finds_entries(file, page_size, child->Ok_0, key, depth);
    if i < page.pointers.len() {
        let cell_key = index_key(file, page_size, page, i as int);
        let rest = spec_entries_children(file, page_size, page, i + 1, depth)->Ok_0;
        lemma_interior_probe(file, page_size, page, key, i + 1, depth);
        assert(entries =~= under + rest);
        lemma_matching_concat(under, rest, key);
        lemma_text_order(cell_key, key);
        match text_order(cell_key, key) {
            TextOrder::Equal => {},
            TextOrder::Greater => {
                lemma_right_of_cell(file, page_size, page, i + 1, depth, i as int);
                lemma_matching_none(rest, key);
                assert(matching_rowids(under, key) + Seq::<u64>::empty() =~= matching_rowids(
                    under,
                    key,
                ));
            },
            TextOrder::Less => {
                assert forall|k: int| 0 <= k < under.len() implies (#[trigger] under[k]).key
                    != key by {
                    assert(key_in_place(under[k].key, cell_key, false));
                }
                lemma_matching_none(under, key);
                assert(Seq::<u64>::empty() + matching_rowids(rest, key) =~= matching_rowids(
                    rest,
                    key,
                ));
            },
        }
    }
}

/// In an index whose keys part the entries among the children, the probe
/// for a key gathers the row-ids of exactly the entries with that key, in
/// the order of the tree.
pub proof fn lemma_probe_finds_entries(
    file: Seq<u8>,
    page_size: u16,
    p: u64,
    key: Seq<char>,
    depth: nat,
)
    requires
        index_ordered(file, page_size, p, depth),
        spec_index_entries(file, page_size, p, depth) is Ok,
    ensures
        spec_index_scan(file, page_size, p, key, depth) == Ok::<Seq<u64>, Error>(
            matching_rowids(spec_index_entries(file, page_size, p, depth)->Ok_0, key),
        ),
    decreases depth, 0nat, 0nat,
{
    let page = spec_load_page(file, page_size, p)->Ok_0;
    crate::table_laws::lemma_loaded_page_wf(file, page_size, p);
    if page.header.page_type == INDEX_INTERIOR {
        lemma_interior_probe(file, page_size, page, key, 0, (depth - 1) as nat);
    } else {
        lemma_leaf_probe(file, page_size, page, key, 0);
    }
}

/// Whether the entries are those of an index over column `column` of the
/// rows: an entry has a key and a row-id exactly where a row has that
/// row-id and that text in the column.
pub open spec fn indexes_column(
    entries: Seq<IndexEntry>,
    rows: Seq<RecordView>,
    column: int,
) -> bool {
    forall|key: Seq<char>, rowid: u64|
        (exists|k: int|
            0 <= k < entries.len() && (#[trigger] entries[k]).key == key && entries[k].rowid
                == rowid) <==> #[trigger] row_has(rows, column, key, rowid)
}

/// Whether one of the rows has the row-id `rowid` and the text `key` in
/// column `column`.
#[verifier::opaque]
pub open spec fn row_has(rows: Seq<RecordView>, column: int, key: Seq<char>, rowid: u64) -> bool {
    exists|r: int|
        0 <= r < rows.len() && (#[trigger] rows[r]).rowid() == Some(rowid) && 0 <= column
            < rows[r].values.len() && rows[r].values[column] == Datum::Text(key)
}

/// For a table with an index on one of its columns, the probe of the index
/// for a text gathers the row-ids of exactly the rows of the scan that have
/// that text in the column.
pub proof fn lemma_probe_agrees_with_scan(
    file: Seq<u8>,
    page_size: u16,
    table_root: u64,
    index_root: u64,
    column: int,
    key: Seq<char>,
    depth: nat,
    rowid: u64,
)
    requires
        index_ordered(file, page_size, index_root, depth),
        spec_index_entries(file, page_size, index_root, depth) is Ok,
        crate::btree::spec_scan(file, page_size, table_root, depth) is Ok,
        indexes_column(
            spec_index_entries(file, page_size, index_root, depth)->Ok_0,
            crate::btree::spec_scan(file, page_size, table_root, depth)->Ok_0,
            column,
        ),
    ensures
        spec_index_scan(file, page_size, index_root, key, depth) matches Ok(found)
            && (found.contains(rowid) <==> row_has(
            crate::btree::spec_scan(file, page_size, table_root, depth)->Ok_0,
            column,
            key,
            rowid,
        )),
{
    let entries = spec_index_entries(file, page_size, index_root, depth)->Ok_0;
    lemma_probe_finds_entries(file, page_size, index_root, key, depth);
    lemma_matching_contains(entries, key, rowid);
}

} // verus!
