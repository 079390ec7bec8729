//! Walking table B-trees: the full scan, the count of rows, and the lookup of
//! one row by its row-id. Every walk goes down at most [`MAX_DEPTH`] pages, so
//! that a file whose pages point in a circle ends in an error.

use crate::bytes::{be_unsigned, lemma_be_unsigned_bounds, lemma_pow256_values, read_be};
use crate::error::{prepend, yields, Error};
use crate::page_io::{spec_load_page, DbHeader, Page, PageView};
use crate::record::{read_record, spec_read_record, CellShape, Record, RecordView};
use crate::utils::{decode_varint, spec_decode_varint};
use vstd::prelude::*;
use vstd::slice::slice_subrange;

verus! {

/// The number of pages that a walk goes down from the root at most.
pub const MAX_DEPTH: usize = 32;

/// The page type of a table interior page.
pub const TABLE_INTERIOR: u8 = 0x05;

/// The page type of a table leaf page.
pub const TABLE_LEAF: u8 = 0x0d;

/// The child page and the key of the table interior cell at `off`: four bytes
/// of page number, then the key as a varint.
pub open spec fn table_interior_cell(data: Seq<u8>, off: int) -> Result<(u64, u64), Error> {
    if off + 4 > data.len() {
        Err(Error::Decode)
    } else {
        match spec_decode_varint(data.skip(off + 4)) {
            None => Err(Error::Decode),
            Some((key, _)) => Ok((be_unsigned(data.subrange(off, off + 4)) as u64, key as u64)),
        }
    }
}

/// The child page of the interior cell at `off`: its first four bytes.
pub open spec fn left_child(data: Seq<u8>, off: int) -> Result<u64, Error> {
    if off + 4 > data.len() {
        Err(Error::Decode)
    } else {
        Ok(be_unsigned(data.subrange(off, off + 4)) as u64)
    }
}

/// The records of the cells of a table leaf from cell `i` on.
pub open spec fn spec_leaf_records(file: Seq<u8>, page_size: u16, page: PageView, i: nat) -> Result<
    Seq<RecordView>,
    Error,
>
    decreases page.pointers.len() - i,
{
    if i >= page.pointers.len() {
        Ok(Seq::empty())
    } else {
        match spec_read_record(file, page_size, page, i as int, CellShape::TableLeaf) {
            Err(e) => Err(e),
            Ok(record) => prepend(seq![record], spec_leaf_records(file, page_size, page, i + 1)),
        }
    }
}

/// The records of the table B-tree under page `p`, in the order of the tree:
/// of an interior page, those of each cell's child and then those of the
/// rightmost child; of a leaf, those of its cells. An error where the tree is
/// deeper than `depth`, where a page is of another type, and where a page or
/// a record cannot be read.
pub open spec fn spec_scan(file: Seq<u8>, page_size: u16, p: u64, depth: nat) -> Result<
    Seq<RecordView>,
    Error,
>
    decreases depth, 0nat, 0nat,
{
    if depth == 0 {
        Err(Error::Decode)
    } else {
        match spec_load_page(file, page_size, p) {
            Err(e) => Err(e),
            Ok(page) => if page.header.page_type == TABLE_INTERIOR {
                spec_scan_children(file, page_size, page, 0, (depth - 1) as nat)
            } else if page.header.page_type == TABLE_LEAF {
                spec_leaf_records(file, page_size, page, 0)
            } else {
                Err(Error::Decode)
            },
        }
    }
}

/// The records under the children of an interior page from cell `i` on, the
/// rightmost child last.
pub open spec fn spec_scan_children(
    file: Seq<u8>,
    page_size: u16,
    page: PageView,
    i: nat,
    depth: nat,
) -> Result<Seq<RecordView>, Error>
    decreases depth, 1nat, page.pointers.len() + 1 - i,
{
    if i > page.pointers.len() {
        Err(Error::Decode)
    } else if i == page.pointers.len() {
        match page.header.rightmost_pointer {
            Some(right) => spec_scan(file, page_size, right as u64, depth),
            None => Err(Error::Decode),
        }
    } else {
        match left_child(page.data, page.pointers[i as int] as int) {
            Err(e) => Err(e),
            Ok(child) => match spec_scan(file, page_size, child, depth) {
                Err(e) => Err(e),
                Ok(records) => prepend(
                    records,
                    spec_scan_children(file, page_size, page, i + 1, depth),
                ),
            },
        }
    }
}

/// The number of cells on the leaves of the table B-tree under page `p`.
pub open spec fn spec_count(file: Seq<u8>, page_size: u16, p: u64, depth: nat) -> Result<nat, Error>
    decreases depth, 0nat, 0nat,
{
    if depth == 0 {
        Err(Error::Decode)
    } else {
        match spec_load_page(file, page_size, p) {
            Err(e) => Err(e),
            Ok(page) => if page.header.page_type == TABLE_INTERIOR {
                spec_count_children(file, page_size, page, 0, (depth - 1) as nat)
            } else if page.header.page_type == TABLE_LEAF {
                Ok(page.header.num_cells as nat)
            } else {
                Err(Error::Decode)
            },
        }
    }
}

/// The number of cells on the leaves under the children of an interior page
/// from cell `i` on, the rightmost child included.
pub open spec fn spec_count_children(
    file: Seq<u8>,
    page_size: u16,
    page: PageView,
    i: nat,
    depth: nat,
) -> Result<nat, Error>
    decreases depth, 1nat, page.pointers.len() + 1 - i,
{
    if i > page.pointers.len() {
        Err(Error::Decode)
    } else if i == page.pointers.len() {
        match page.header.rightmost_pointer {
            Some(right) => spec_count(file, page_size, right as u64, depth),
            None => Err(Error::Decode),
        }
    } else {
        match left_child(page.data, page.pointers[i as int] as int) {
            Err(e) => Err(e),
            Ok(child) => match spec_count(file, page_size, child, depth) {
                Err(e) => Err(e),
                Ok(n) => match spec_count_children(file, page_size, page, i + 1, depth) {
                    Err(e) => Err(e),
                    Ok(m) => Ok(n + m),
                },
            },
        }
    }
}

/// The child of an interior page into which the search for `rowid` goes
/// down, looking from cell `i` on: that of the first cell whose key is not
/// below `rowid`, and the rightmost child where there is no such cell.
pub open spec fn spec_lookup_child(page: PageView, rowid: u64, i: nat) -> Result<u64, Error>
    decreases page.pointers.len() - i,
{
    if i >= page.pointers.len() {
        match page.header.rightmost_pointer {
            Some(right) => Ok(right as u64),
            None => Err(Error::Decode),
        }
    } else {
        match table_interior_cell(page.data, page.pointers[i as int] as int) {
            Err(e) => Err(e),
            Ok((child, key)) => if rowid <= key {
                Ok(child)
            } else {
                spec_lookup_child(page, rowid, i + 1)
            },
        }
    }
}

/// The records of a table leaf from cell `i` on whose row-id is `rowid`.
pub open spec fn spec_leaf_matches(
    file: Seq<u8>,
    page_size: u16,
    page: PageView,
    rowid: u64,
    i: nat,
) -> Result<Seq<RecordView>, Error>
    decreases page.pointers.len() - i,
{
    if i >= page.pointers.len() {
        Ok(Seq::empty())
    } else {
        match spec_read_record(file, page_size, page, i as int, CellShape::TableLeaf) {
            Err(e) => Err(e),
            Ok(record) => prepend(
                if record.rowid() == Some(rowid) {
                    seq![record]
                } else {
                    Seq::empty()
                },
                spec_leaf_matches(file, page_size, page, rowid, i + 1),
            ),
        }
    }
}

/// The records with the row-id `rowid` in the table B-tree under page `p`,
/// found by going down one child at each interior page.
pub open spec fn spec_lookup(file: Seq<u8>, page_size: u16, p: u64, rowid: u64, depth: nat) -> Result<
    Seq<RecordView>,
    Error,
>
    decreases depth,
{
    if depth == 0 {
        Err(Error::Decode)
    } else {
        match spec_load_page(file, page_size, p) {
            Err(e) => Err(e),
            Ok(page) => if page.header.page_type == TABLE_INTERIOR {
                match spec_lookup_child(page, rowid, 0) {
                    Err(e) => Err(e),
                    Ok(child) => spec_lookup(file, page_size, child, rowid, (depth - 1) as nat),
                }
            } else if page.header.page_type == TABLE_LEAF {
                spec_leaf_matches(file, page_size, page, rowid, 0)
            } else {
                Err(Error::Decode)
            },
        }
    }
}

/// The leaf page on which the search for `rowid` ends in the table B-tree
/// under page `p`.
pub open spec fn spec_leaf_page(file: Seq<u8>, page_size: u16, p: u64, rowid: u64, depth: nat) -> Result<
    u64,
    Error,
>
    decreases depth,
{
    if depth == 0 {
        Err(Error::Decode)
    } else {
        match spec_load_page(file, page_size, p) {
            Err(e) => Err(e),
            Ok(page) => if page.header.page_type == TABLE_INTERIOR {
                match spec_lookup_child(page, rowid, 0) {
                    Err(e) => Err(e),
                    Ok(child) => spec_leaf_page(file, page_size, child, rowid, (depth - 1) as nat),
                }
            } else if page.header.page_type == TABLE_LEAF {
                Ok(p)
            } else {
                Err(Error::Decode)
            },
        }
    }
}

/// Reads the child page of the interior cell `i` of `page`.
pub fn read_left_child(page: &Page, i: usize) -> (r: Result<u64, Error>)
    requires
        i < page@.pointers.len(),
    ensures
        r == left_child(page@.data, page@.pointers[i as int] as int),
{
    let data = page.data();
    let off = page.cell_pointer(i) as usize;
    if data.len() - off < 4 {
        return Err(Error::Decode);
    }
    proof {
        lemma_pow256_values();
        lemma_be_unsigned_bounds(data@.subrange(off as int, off + 4));
    }
    Ok(read_be(data, off, 4))
}

/// Reads the child page and the key of the table interior cell `i` of `page`.
pub fn read_table_interior_cell(page: &Page, i: usize) -> (r: Result<(u64, u64), Error>)
    requires
        i < page@.pointers.len(),
    ensures
        r == table_interior_cell(page@.data, page@.pointers[i as int] as int),
{
    let data = page.data();
    let off = page.cell_pointer(i) as usize;
    if data.len() - off < 4 {
        return Err(Error::Decode);
    }
    proof {
        lemma_pow256_values();
        lemma_be_unsigned_bounds(data@.subrange(off as int, off + 4));
    }
    let child = read_be(data, off, 4);
    let rest = slice_subrange(data, off + 4, data.len());
    assert(rest@ =~= data@.skip(off + 4));
    match decode_varint(rest) {
        Ok((key, _)) => Ok((child, key)),
        Err(_) => Err(Error::Decode),
    }
}

fn scan_leaf_into(file: &[u8], dbheader: &DbHeader, page: &Page, records: &mut Vec<Record>) -> (r:
    Result<(), Error>)
    ensures
        match spec_leaf_records(file@, dbheader.page_size, page@, 0) {
            Ok(found) => r is Ok && final(records).deep_view() == old(records).deep_view() + found,
            Err(e) => r == Err::<(), Error>(e),
        },
{
    let n = page.num_cells();
    let ghost before = records.deep_view();
    let ghost mut gathered: Seq<RecordView> = Seq::empty();
    assert(before + gathered =~= before);
    let mut i: usize = 0;
    while i < n
        invariant
            i <= n,
            n == page@.pointers.len(),
            records.deep_view() == before + gathered,
            spec_leaf_records(file@, dbheader.page_size, page@, 0) == prepend(
                gathered,
                spec_leaf_records(file@, dbheader.page_size, page@, i as nat),
            ),
        decreases n - i,
    {
        let record = match read_record(file, dbheader, page, i, CellShape::TableLeaf) {
            Ok(record) => record,
            Err(e) => {
                return Err(e);
            },
        };
        proof {
            let rest = spec_leaf_records(file@, dbheader.page_size, page@, (i + 1) as nat);
            if let Ok(t) = rest {
                assert(gathered + (seq![record@] + t) =~= gathered.push(record@) + t);
            }
            assert(records.deep_view().push(record@) =~= before + gathered.push(record@));
            gathered = gathered.push(record@);
        }
        let ghost was = records.deep_view();
        records.push(record);
        assert(records.deep_view() =~= was.push(record@));
        i += 1;
    }
    assert(gathered + Seq::<RecordView>::empty() =~= gathered);
    Ok(())
}

fn scan_children_into(
    file: &[u8],
    dbheader: &DbHeader,
    page: &Page,
    depth: usize,
    records: &mut Vec<Record>,
) -> (r: Result<(), Error>)
    ensures
        match spec_scan_children(file@, dbheader.page_size, page@, 0, depth as nat) {
            Ok(found) => r is Ok && final(records).deep_view() == old(records).deep_view() + found,
            Err(e) => r == Err::<(), Error>(e),
        },
    decreases depth, 1nat,
{
    let header = page.header();
    let n = page.num_cells();
    let ghost before = records.deep_view();
    let ghost mut gathered: Seq<RecordView> = Seq::empty();
    assert(before + gathered =~= before);
    let mut i: usize = 0;
    while i < n
        invariant
            i <= n,
            n == page@.pointers.len(),
            records.deep_view() == before + gathered,
            spec_scan_children(file@, dbheader.page_size, page@, 0, depth as nat) == prepend(
                gathered,
                spec_scan_children(file@, dbheader.page_size, page@, i as nat, depth as nat),
            ),
        decreases n - i,
    {
        let child = match read_left_child(page, i) {
            Ok(child) => child,
            Err(e) => {
                return Err(e);
            },
        };
        let ghost under = spec_scan(file@, dbheader.page_size, child, depth as nat);
        match scan_into(file, dbheader, child, depth, records) {
            Ok(()) => {},
            Err(e) => {
                return Err(e);
            },
        }
        proof {
            let rest = spec_scan_children(
                file@,
                dbheader.page_size,
                page@,
                (i + 1) as nat,
                depth as nat,
            );
            if let Ok(t) = rest {
                assert(gathered + (under->Ok_0 + t) =~= (gathered + under->Ok_0) + t);
            }
            assert(before + (gathered + under->Ok_0) =~= (before + gathered) + under->Ok_0);
            gathered = gathered + under->Ok_0;
        }
        i += 1;
    }
    let right = match header.rightmost_pointer {
        Some(right) => right,
        None => {
            return Err(Error::Decode);
        },
    };
    let ghost under = spec_scan(file@, dbheader.page_size, right as u64, depth as nat);
    match scan_into(file, dbheader, right as u64, depth, records) {
        Ok(()) => {
            assert(before + (gathered + under->Ok_0) =~= (before + gathered) + under->Ok_0);
            Ok(())
        },
        Err(e) => Err(e),
    }
}

fn scan_into(
    file: &[u8],
    dbheader: &DbHeader,
    page_number: u64,
    depth: usize,
    records: &mut Vec<Record>,
) -> (r: Result<(), Error>)
    ensures
        match spec_scan(file@, dbheader.page_size, page_number, depth as nat) {
            Ok(found) => r is Ok && final(records).deep_view() == old(records).deep_view() + found,
            Err(e) => r == Err::<(), Error>(e),
        },
    decreases depth, 0nat,
{
    if depth == 0 {
        return Err(Error::Decode);
    }
    let page = match Page::from_file(file, page_number, dbheader) {
        Ok(page) => page,
        Err(e) => {
            return Err(e);
        },
    };
    let header = page.header();
    if header.page_type == TABLE_INTERIOR {
        scan_children_into(file, dbheader, &page, depth - 1, records)
    } else if header.page_type == TABLE_LEAF {
        scan_leaf_into(file, dbheader, &page, records)
    } else {
        Err(Error::Decode)
    }
}

/// Gathers every record of the table whose root is page `page_number`, in the
/// order of the tree.
pub fn full_table_scan(file: &[u8], dbheader: &DbHeader, page_number: u64) -> (r: Result<
    Vec<Record>,
    Error,
>)
    ensures
        yields(r, spec_scan(file@, dbheader.page_size, page_number, MAX_DEPTH as nat)),
{
    let mut records: Vec<Record> = Vec::new();
    assert(records.deep_view() =~= Seq::<RecordView>::empty());
    match scan_into(file, dbheader, page_number, MAX_DEPTH, &mut records) {
        Ok(()) => {
            let ghost found = spec_scan(file@, dbheader.page_size, page_number, MAX_DEPTH as nat);
            assert(Seq::<RecordView>::empty() + found->Ok_0 =~= found->Ok_0);
            Ok(records)
        },
        Err(e) => Err(e),
    }
}

/// The cap at which the counting of rows stops growing.
pub open spec fn capped(n: nat) -> nat {
    if n <= u64::MAX {
        n
    } else {
        (u64::MAX + 1) as nat
    }
}

#[verifier::loop_isolation(false)]
fn count_under(file: &[u8], dbheader: &DbHeader, page_number: u64, depth: usize) -> (r: Result<
    u128,
    Error,
>)
    ensures
        match spec_count(file@, dbheader.page_size, page_number, depth as nat) {
            Ok(n) => r == Ok::<u128, Error>(capped(n) as u128),
            Err(e) => r == Err::<u128, Error>(e),
        },
    decreases depth,
{
    if depth == 0 {
        return Err(Error::Decode);
    }
    let page = match Page::from_file(file, page_number, dbheader) {
        Ok(page) => page,
        Err(e) => {
            return Err(e);
        },
    };
    let header = page.header();
    let n = page.num_cells();
    if header.page_type == TABLE_INTERIOR {
        let mut total: u128 = 0;
        let ghost mut counted: nat = 0;
        let mut i: usize = 0;
        while i < n
            invariant
                i <= n,
                total == capped(counted),
                spec_count_children(file@, dbheader.page_size, page@, 0, (depth - 1) as nat)
                    == match spec_count_children(
                    file@,
                    dbheader.page_size,
                    page@,
                    i as nat,
                    (depth - 1) as nat,
                ) {
                    Ok(m) => Ok::<nat, Error>(counted + m),
                    Err(e) => Err::<nat, Error>(e),
                },
            decreases n - i,
        {
            let child = match read_left_child(&page, i) {
                Ok(child) => child,
                Err(e) => {
                    return Err(e);
                },
            };
            let ghost under = spec_count(file@, dbheader.page_size, child, (depth - 1) as nat);
            let more = match count_under(file, dbheader, child, depth - 1) {
                Ok(more) => more,
                Err(e) => {
                    return Err(e);
                },
            };
            total = total + more;
            if total > u64::MAX as u128 {
                total = u64::MAX as u128 + 1;
            }
            proof {
                counted = counted + under->Ok_0;
            }
            i += 1;
        }
        let right = match header.rightmost_pointer {
            Some(right) => right,
            None => {
                return Err(Error::Decode);
            },
        };
        let more = match count_under(file, dbheader, right as u64, depth - 1) {
            Ok(more) => more,
            Err(e) => {
                return Err(e);
            },
        };
        total = total + more;
        if total > u64::MAX as u128 {
            total = u64::MAX as u128 + 1;
        }
        Ok(total)
    } else if header.page_type == TABLE_LEAF {
        Ok(n as u128)
    } else {
        Err(Error::Decode)
    }
}

/// Counts the rows of the table whose root is page `page_number`: the cells
/// on all its leaves. A count that does not fit 64 bits is refused.
pub fn count_rows(file: &[u8], dbheader: &DbHeader, page_number: u64) -> (r: Result<u64, Error>)
    ensures
        match spec_count(file@, dbheader.page_size, page_number, MAX_DEPTH as nat) {
            Ok(n) => if n <= u64::MAX {
                r == Ok::<u64, Error>(n as u64)
            } else {
                r == Err::<u64, Error>(Error::Unsupported)
            },
            Err(e) => r == Err::<u64, Error>(e),
        },
{
    match count_under(file, dbheader, page_number, MAX_DEPTH) {
        Ok(n) => if n <= u64::MAX as u128 {
            Ok(n as u64)
        } else {
            Err(Error::Unsupported)
        },
        Err(e) => Err(e),
    }
}

/// Reads the child of an interior page into which the search for `rowid`
/// goes down.
pub fn lookup_child(page: &Page, rowid: u64) -> (r: Result<u64, Error>)
    ensures
        r == spec_lookup_child(page@, rowid, 0),
{
    let header = page.header();
    let n = page.num_cells();
    let mut i: usize = 0;
    while i < n
        invariant
            i <= n,
            n == page@.pointers.len(),
            spec_lookup_child(page@, rowid, 0) == spec_lookup_child(page@, rowid, i as nat),
        decreases n - i,
    {
        let (child, key) = match read_table_interior_cell(page, i) {
            Ok(found) => found,
            Err(e) => {
                return Err(e);
            },
        };
        if rowid <= key {
            return Ok(child);
        }
        i += 1;
    }
    match header.rightmost_pointer {
        Some(right) => Ok(right as u64),
        None => Err(Error::Decode),
    }
}

/// Finds the leaf page on which a row with the row-id `search_key` stands
/// if the table whose root is page `page_number` holds one.
pub fn btree_pagenum_search(
    file: &[u8],
    dbheader: &DbHeader,
    page_number: u64,
    search_key: u64,
) -> (r: Result<u64, Error>)
    ensures
        r == spec_leaf_page(file@, dbheader.page_size, page_number, search_key, MAX_DEPTH as nat),
{
    let mut current = page_number;
    let mut depth: usize = MAX_DEPTH;
    while depth > 0
        invariant
            spec_leaf_page(file@, dbheader.page_size, page_number, search_key, MAX_DEPTH as nat)
                == spec_leaf_page(file@, dbheader.page_size, current, search_key, depth as nat),
        decreases depth,
    {
        let page = match Page::from_file(file, current, dbheader) {
            Ok(page) => page,
            Err(e) => {
                return Err(e);
            },
        };
        let header = page.header();
        if header.page_type == TABLE_INTERIOR {
            current = match lookup_child(&page, search_key) {
                Ok(child) => child,
                Err(e) => {
                    return Err(e);
                },
            };
            depth -= 1;
        } else if header.page_type == TABLE_LEAF {
            return Ok(current);
        } else {
            return Err(Error::Decode);
        }
    }
    Err(Error::Decode)
}

/// Finds the records with the row-id `rowid` in the table whose root is page
/// `page_number`, going down one child at each interior page.
#[verifier::loop_isolation(false)]
pub fn row_lookup(file: &[u8], dbheader: &DbHeader, page_number: u64, rowid: u64) -> (r: Result<
    Vec<Record>,
    Error,
>)
    ensures
        yields(
            r,
            spec_lookup(file@, dbheader.page_size, page_number, rowid, MAX_DEPTH as nat),
        ),
{
    let mut current = page_number;
    let mut depth: usize = MAX_DEPTH;
    while depth > 0
        invariant
            spec_lookup(file@, dbheader.page_size, page_number, rowid, MAX_DEPTH as nat)
                == spec_lookup(file@, dbheader.page_size, current, rowid, depth as nat),
        decreases depth,
    {
        let page = match Page::from_file(file, current, dbheader) {
            Ok(page) => page,
            Err(e) => {
                return Err(e);
            },
        };
        let header = page.header();
        let n = page.num_cells();
        if header.page_type == TABLE_INTERIOR {
            current = match lookup_child(&page, rowid) {
                Ok(child) => child,
                Err(e) => {
                    return Err(e);
                },
            };
            depth -= 1;
        } else if header.page_type == TABLE_LEAF {
            let mut records: Vec<Record> = Vec::new();
            let mut i: usize = 0;
            assert(records.deep_view() =~= Seq::<RecordView>::empty());
            while i < n
                invariant
                    i <= n,
                    spec_leaf_matches(file@, dbheader.page_size, page@, rowid, 0) == prepend(
                        records.deep_view(),
                        spec_leaf_matches(file@, dbheader.page_size, page@, rowid, i as nat),
                    ),
                decreases n - i,
            {
                let record = match read_record(file, dbheader, &page, i, CellShape::TableLeaf) {
                    Ok(record) => record,
                    Err(e) => {
                        return Err(e);
                    },
                };
                let ghost was = records.deep_view();
                let ghost rest = spec_leaf_matches(
                    file@,
                    dbheader.page_size,
                    page@,
                    rowid,
                    (i + 1) as nat,
                );
                if record.rowid() == Some(rowid) {
                    proof {
                        if let Ok(t) = rest {
                            assert(was + (seq![record@] + t) =~= was.push(record@) + t);
                        }
                    }
                    records.push(record);
                    assert(records.deep_view() =~= was.push(record@));
                } else {
                    proof {
                        if let Ok(t) = rest {
                            assert(was + (Seq::<RecordView>::empty() + t) =~= was + t);
                        }
                    }
                }
                i += 1;
            }
            assert(records.deep_view() + Seq::<RecordView>::empty() =~= records.deep_view());
            return Ok(records);
        } else {
            return Err(Error::Decode);
        }
    }
    Err(Error::Decode)
}

} // verus!
