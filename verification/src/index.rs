//! Walking index B-trees: the probe for the row-ids that stand under one key.

use crate::btree::MAX_DEPTH;
use crate::bytes::{to_unsigned, twos_complement};
use crate::error::{gives, prepend, Error};
use crate::page_io::{spec_load_page, DbHeader, Page, PageView};
use crate::record::{read_record, spec_read_record, CellShape, Record, RecordView};
use crate::text::{compare_text, text_order, TextOrder};
use crate::typecodes::{Datum, SqlValue};
use vstd::prelude::*;

verus! {

/// The page type of an index interior page.
pub const INDEX_INTERIOR: u8 = 0x02;

/// The page type of an index leaf page.
pub const INDEX_LEAF: u8 = 0x0a;

/// The key of an index record: its first column, which has to be a text.
pub open spec fn entry_key(record: RecordView) -> Result<Seq<char>, Error> {
    if record.values.len() == 0 {
        Err(Error::Decode)
    } else {
        match record.values[0] {
            Datum::Text(s) => Ok(s),
            _ => Err(Error::Unsupported),
        }
    }
}

/// The row-id of an index record: its last column, which has to be an
/// integer.
pub open spec fn entry_rowid(record: RecordView) -> Result<u64, Error> {
    if record.values.len() == 0 {
        Err(Error::Decode)
    } else {
        match record.values.last().integer() {
            Some(v) => Ok(twos_complement(v)),
            None => Err(Error::Unsupported),
        }
    }
}

/// The child page and the key of cell `i` of an index interior page.
#[verifier::opaque]
pub open spec fn index_cell(file: Seq<u8>, page_size: u16, page: PageView, i: int) -> Result<
    (u64, Seq<char>),
    Error,
> {
    match spec_read_record(file, page_size, page, i, CellShape::IndexInterior) {
        Err(e) => Err(e),
        Ok(record) => match entry_key(record) {
            Err(e) => Err(e),
            Ok(key) => match record.left_page() {
                Some(left) => Ok((left as u64, key)),
                None => Err(Error::Decode),
            },
        },
    }
}

/// The row-ids of the cells of an index leaf from cell `i` on whose key is
/// `key`.
pub open spec fn spec_index_leaf(
    file: Seq<u8>,
    page_size: u16,
    page: PageView,
    key: Seq<char>,
    i: nat,
) -> Result<Seq<u64>, Error>
    decreases page.pointers.len() - i,
{
    if i >= page.pointers.len() {
        Ok(Seq::empty())
    } else {
        match spec_read_record(file, page_size, page, i as int, CellShape::IndexLeaf) {
            Err(e) => Err(e),
            Ok(record) => match entry_key(record) {
                Err(e) => Err(e),
                Ok(found) => if found == key {
                    match entry_rowid(record) {
                        Err(e) => Err(e),
                        Ok(rowid) => prepend(
                            seq![rowid],
                            spec_index_leaf(file, page_size, page, key, i + 1),
                        ),
                    }
                } else {
                    spec_index_leaf(file, page_size, page, key, i + 1)
                },
            },
        }
    }
}

/// The row-ids that the probe for `key` gathers in the index B-tree under
/// page `p`. On a leaf, those of the cells with that key. On an interior
/// page the cells are taken in order: under a cell with that key the probe
/// goes down and then on to the next cell; under the first cell with a
/// greater key it goes down and ends; a cell with a smaller key it passes.
/// Where no cell had a greater key it goes down under the rightmost pointer.
pub open spec fn spec_index_scan(
    file: Seq<u8>,
    page_size: u16,
    p: u64,
    key: Seq<char>,
    depth: nat,
) -> Result<Seq<u64>, Error>
    decreases depth, 0nat, 0nat,
{
    if depth == 0 {
        Err(Error::Decode)
    } else {
        match spec_load_page(file, page_size, p) {
            Err(e) => Err(e),
            Ok(page) => if page.header.page_type == INDEX_INTERIOR {
                spec_index_interior(file, page_size, page, key, 0, (depth - 1) as nat)
            } else if page.header.page_type == INDEX_LEAF {
                spec_index_leaf(file, page_size, page, key, 0)
            } else {
                Err(Error::Decode)
            },
        }
    }
}

/// What the probe gathers from a cell on: `under` is what it gathers under
/// the cell's child, `rest` what it gathers from the next cell on, and
/// `order` says how the cell's key stands to the key that is looked for.
pub open spec fn probe_step(
    order: TextOrder,
    under: Result<Seq<u64>, Error>,
    rest: Result<Seq<u64>, Error>,
) -> Result<Seq<u64>, Error> {
    match order {
        TextOrder::Equal => match under {
            Err(e) => Err(e),
            Ok(rowids) => prepend(rowids, rest),
        },
        TextOrder::Greater => under,
        TextOrder::Less => rest,
    }
}

/// What the probe gathers on an interior page from cell `i` on.
pub open spec fn spec_index_interior(
    file: Seq<u8>,
    page_size: u16,
    page: PageView,
    key: Seq<char>,
    i: nat,
    depth: nat,
) -> Result<Seq<u64>, Error>
    decreases depth, 1nat, page.pointers.len() + 1 - i,
{
    if i > page.pointers.len() {
        Err(Error::Decode)
    } else if i == page.pointers.len() {
        match page.header.rightmost_pointer {
            Some(right) => spec_index_scan(file, page_size, right as u64, key, depth),
            None => Err(Error::Decode),
        }
    } else {
        match index_cell(file, page_size, page, i as int) {
            Err(e) => Err(e),
            Ok((left, found)) => probe_step(
                text_order(found, key),
                spec_index_scan(file, page_size, left, key, depth),
                spec_index_interior(file, page_size, page, key, i + 1, depth),
            ),
        }
    }
}

/// How the key of an index record stands to `key`.
pub fn order_of_key(record: &Record, key: &str) -> (r: Result<TextOrder, Error>)
    ensures
        match entry_key(record@) {
            Ok(found) => r == Ok::<TextOrder, Error>(text_order(found, key@)),
            Err(e) => r == Err::<TextOrder, Error>(e),
        },
{
    if record.values.len() == 0 {
        return Err(Error::Decode);
    }
    assert(record@.values[0] == record.values@[0]@);
    match &record.values[0] {
        SqlValue::Text(found) => Ok(compare_text(found.as_str(), key)),
        _ => Err(Error::Unsupported),
    }
}

/// The row-id that an index record holds.
pub fn rowid_of_entry(record: &Record) -> (r: Result<u64, Error>)
    ensures
        r == entry_rowid(record@),
{
    let n = record.values.len();
    if n == 0 {
        return Err(Error::Decode);
    }
    assert(record@.values.last() == record.values@[n - 1]@);
    match record.values[n - 1].as_integer() {
        Some(v) => Ok(to_unsigned(v)),
        None => Err(Error::Unsupported),
    }
}

fn index_leaf_into(
    file: &[u8],
    dbheader: &DbHeader,
    page: &Page,
    key: &str,
    row_ids: &mut Vec<u64>,
) -> (r: Result<(), Error>)
    ensures
        match spec_index_leaf(file@, dbheader.page_size, page@, key@, 0) {
            Ok(found) => r is Ok && final(row_ids)@ == old(row_ids)@ + found,
            Err(e) => r == Err::<(), Error>(e),
        },
{
    let n = page.num_cells();
    let ghost before = row_ids@;
    let ghost mut gathered: Seq<u64> = Seq::empty();
    assert(before + gathered =~= before);
    let mut i: usize = 0;
    while i < n
        invariant
            i <= n,
            n == page@.pointers.len(),
            row_ids@ == before + gathered,
            spec_index_leaf(file@, dbheader.page_size, page@, key@, 0) == prepend(
                gathered,
                spec_index_leaf(file@, dbheader.page_size, page@, key@, i as nat),
            ),
        decreases n - i,
    {
        let record = match read_record(file, dbheader, page, i, CellShape::IndexLeaf) {
            Ok(record) => record,
            Err(e) => {
                return Err(e);
            },
        };
        let order = match order_of_key(&record, key) {
            Ok(order) => order,
            Err(e) => {
                return Err(e);
            },
        };
        if let TextOrder::Equal = order {
            let rowid = match rowid_of_entry(&record) {
                Ok(rowid) => rowid,
                Err(e) => {
                    return Err(e);
                },
            };
            proof {
                let rest = spec_index_leaf(file@, dbheader.page_size, page@, key@, (i + 1) as nat);
                if let Ok(t) = rest {
                    assert(gathered + (seq![rowid] + t) =~= gathered.push(rowid) + t);
                }
                assert(row_ids@.push(rowid) =~= before + gathered.push(rowid));
                gathered = gathered.push(rowid);
            }
            row_ids.push(rowid);
        }
        i += 1;
    }
    assert(gathered + Seq::<u64>::empty() =~= gathered);
    Ok(())
}

/// Reads the child page of cell `i` of an index interior page, and how the
/// cell's key stands to `key`.
fn read_index_cell(file: &[u8], dbheader: &DbHeader, page: &Page, i: usize, key: &str) -> (r:
    Result<(u64, TextOrder), Error>)
    requires
        i < page@.pointers.len(),
    ensures
        match index_cell(file@, dbheader.page_size, page@, i as int) {
            Ok((left, found)) => r == Ok::<(u64, TextOrder), Error>(
                (left, text_order(found, key@)),
            ),
            Err(e) => r == Err::<(u64, TextOrder), Error>(e),
        },
{
    reveal(index_cell);
    let record = match read_record(file, dbheader, page, i, CellShape::IndexInterior) {
        Ok(record) => record,
        Err(e) => {
            return Err(e);
        },
    };
    let order = match order_of_key(&record, key) {
        Ok(order) => order,
        Err(e) => {
            return Err(e);
        },
    };
    match record.left_page() {
        Some(left) => Ok((left as u64, order)),
        None => Err(Error::Decode),
    }
}

/// Probes cell `i` of an interior page: goes down under it where its key is
/// not below `key`, and says whether the probe of the page ends with it.
fn probe_cell(
    file: &[u8],
    dbheader: &DbHeader,
    page: &Page,
    i: usize,
    key: &str,
    depth: usize,
    row_ids: &mut Vec<u64>,
) -> (r: Result<bool, Error>)
    requires
        i < page@.pointers.len(),
    ensures
        match index_cell(file@, dbheader.page_size, page@, i as int) {
            Err(e) => r == Err::<bool, Error>(e),
            Ok((left, found)) => match text_order(found, key@) {
                TextOrder::Less => r == Ok::<bool, Error>(false)
                    && final(row_ids)@ == old(row_ids)@,
                order => match spec_index_scan(
                    file@,
                    dbheader.page_size,
                    left,
                    key@,
                    depth as nat,
                ) {
                    Err(e) => r == Err::<bool, Error>(e),
                    Ok(rowids) => r == Ok::<bool, Error>(order == TextOrder::Greater)
                        && final(row_ids)@ == old(row_ids)@ + rowids,
                },
            },
        },
    decreases depth, 1nat,
{
    let (left, order) = match read_index_cell(file, dbheader, page, i, key) {
        Ok(found) => found,
        Err(e) => {
            return Err(e);
        },
    };
    match order {
        TextOrder::Less => Ok(false),
        TextOrder::Equal => match index_into(file, dbheader, left, key, depth, row_ids) {
            Ok(()) => Ok(false),
            Err(e) => Err(e),
        },
        TextOrder::Greater => match index_into(file, dbheader, left, key, depth, row_ids) {
            Ok(()) => Ok(true),
            Err(e) => Err(e),
        },
    }
}

fn index_interior_into(
    file: &[u8],
    dbheader: &DbHeader,
    page: &Page,
    key: &str,
    depth: usize,
    row_ids: &mut Vec<u64>,
) -> (r: Result<(), Error>)
    ensures
        match spec_index_interior(file@, dbheader.page_size, page@, key@, 0, depth as nat) {
            Ok(found) => r is Ok && final(row_ids)@ == old(row_ids)@ + found,
            Err(e) => r == Err::<(), Error>(e),
        },
    decreases depth, 2nat,
{
    let header = page.header();
    let n = page.num_cells();
    let ghost before = row_ids@;
    let ghost mut gathered: Seq<u64> = Seq::empty();
    assert(before + gathered =~= before);
    let mut i: usize = 0;
    while i < n
        invariant
            i <= n,
            n == page@.pointers.len(),
            before == old(row_ids)@,
            row_ids@ == before + gathered,
            spec_index_interior(file@, dbheader.page_size, page@, key@, 0, depth as nat)
                == prepend(
                gathered,
                spec_index_interior(file@, dbheader.page_size, page@, key@, i as nat, depth as nat),
            ),
        decreases n - i,
    {
        let ghost was = row_ids@;
        let ghost rest = spec_index_interior(
            file@,
            dbheader.page_size,
            page@,
            key@,
            (i + 1) as nat,
            depth as nat,
        );
        let stop = match probe_cell(file, dbheader, page, i, key, depth, row_ids) {
            Ok(stop) => stop,
            Err(e) => {
                return Err(e);
            },
        };
        proof {
            let (left, found) = index_cell(file@, dbheader.page_size, page@, i as int)->Ok_0;
            let under = spec_index_scan(file@, dbheader.page_size, left, key@, depth as nat);
            match text_order(found, key@) {
                TextOrder::Less => {
                    assert(gathered + Seq::<u64>::empty() =~= gathered);
                },
                _ => {
                    let added = under->Ok_0;
                    assert(before + (gathered + added) =~= (before + gathered) + added);
                    if let Ok(t) = rest {
                        assert(gathered + (added + t) =~= (gathered + added) + t);
                    }
                    gathered = gathered + added;
                },
            }
        }
        if stop {
            return Ok(());
        }
        i += 1;
    }
    let right = match header.rightmost_pointer {
        Some(right) => right,
        None => {
            return Err(Error::Decode);
        },
    };
    let ghost under = spec_index_scan(file@, dbheader.page_size, right as u64, key@, depth as nat);
    match index_into(file, dbheader, right as u64, key, depth, row_ids) {
        Ok(()) => {
            assert(before + (gathered + under->Ok_0) =~= (before + gathered) + under->Ok_0);
            Ok(())
        },
        Err(e) => Err(e),
    }
}

fn index_into(
    file: &[u8],
    dbheader: &DbHeader,
    page_number: u64,
    key: &str,
    depth: usize,
    row_ids: &mut Vec<u64>,
) -> (r: Result<(), Error>)
    ensures
        match spec_index_scan(file@, dbheader.page_size, page_number, key@, depth as nat) {
            Ok(found) => r is Ok && final(row_ids)@ == old(row_ids)@ + found,
            Err(e) => r == Err::<(), Error>(e),
        },
    decreases depth, 0nat,
{
    if depth == 0 {
        return Err(Error::Decode);
    }
    let page = match Page::from_file(file, page_number, dbheader) {
        Ok(page) => page,
        Err(e) => {
            return Err(e);
        },
    };
    let header = page.header();
    if header.page_type == INDEX_INTERIOR {
        index_interior_into(file, dbheader, &page, key, depth - 1, row_ids)
    } else if header.page_type == INDEX_LEAF {
        index_leaf_into(file, dbheader, &page, key, row_ids)
    } else {
        Err(Error::Decode)
    }
}

/// Gathers the row-ids that stand under `key` in the index whose root is
/// page `page_number`.
pub fn index_scan(file: &[u8], dbheader: &DbHeader, page_number: u64, key: &str) -> (r: Result<
    Vec<u64>,
    Error,
>)
    ensures
        gives(r, spec_index_scan(file@, dbheader.page_size, page_number, key@, MAX_DEPTH as nat)),
{
    let mut row_ids: Vec<u64> = Vec::new();
    match index_into(file, dbheader, page_number, key, MAX_DEPTH, &mut row_ids) {
        Ok(()) => {
            let ghost found = spec_index_scan(
                file@,
                dbheader.page_size,
                page_number,
                key@,
                MAX_DEPTH as nat,
            );
            assert(Seq::<u64>::empty() + found->Ok_0 =~= found->Ok_0);
            Ok(row_ids)
        },
        Err(e) => Err(e),
    }
}

} // verus!
