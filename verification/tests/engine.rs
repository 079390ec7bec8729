use sqlite_reader::btree::{
    btree_pagenum_search, count_rows, full_table_scan, lookup_child, read_left_child,
    read_table_interior_cell, row_lookup, MAX_DEPTH,
};
use sqlite_reader::command::run;
use sqlite_reader::error::Error;
use sqlite_reader::index::{index_scan, order_of_key, rowid_of_entry};
use sqlite_reader::page_io::{page_slice, DbHeader, OverflowPage, Page, PageHeader};
use sqlite_reader::query::{
    check_row, choose_index, compare_condition, contains_rowid, execute_select, find_table,
    in_all_others, intersect, is_usable_index, lay_out, plan_conditions, plan_projection,
    project_row, table_schema, text_of_projected, Condition, Projected,
};
use sqlite_reader::record::{
    parse_record, read_cell_prefix, read_overflow, read_payload, read_record, CellShape, Record,
    RecordStart,
};
use sqlite_reader::schema::{SqlSchemaElement, SqliteSchema};
use sqlite_reader::syntax::select::{SelectStmt, WhereClause};
use sqlite_reader::text::TextOrder;
use sqlite_reader::typecodes::SqlValue;
use sqlite_reader::utils::encode_varint;

const PAGE: usize = 512;

#[derive(Clone)]
enum Val {
    Null,
    Int(i64),
    One,
    Text(String),
    Blob(Vec<u8>),
}

fn t(s: &str) -> Val {
    Val::Text(s.to_string())
}

/// The bytes of a record with these column values.
fn record(values: &[Val]) -> Vec<u8> {
    let mut types: Vec<u8> = Vec::new();
    let mut body: Vec<u8> = Vec::new();
    for v in values {
        match v {
            Val::Null => types.push(0),
            Val::One => types.push(9),
            Val::Int(i) => {
                if -128 <= *i && *i <= 127 {
                    types.push(1);
                    body.push(*i as u8);
                } else {
                    types.push(6);
                    body.extend_from_slice(&i.to_be_bytes());
                }
            }
            Val::Text(s) => {
                types.extend(encode_varint(13 + 2 * s.len() as u64));
                body.extend_from_slice(s.as_bytes());
            }
            Val::Blob(b) => {
                types.extend(encode_varint(12 + 2 * b.len() as u64));
                body.extend_from_slice(b);
            }
        }
    }
    let mut out = encode_varint(types.len() as u64 + 1);
    assert_eq!(out.len(), 1);
    out.extend(types);
    out.extend(body);
    out
}

fn table_leaf_cell(rowid: u64, payload: &[u8]) -> Vec<u8> {
    let mut cell = encode_varint(payload.len() as u64);
    cell.extend(encode_varint(rowid));
    cell.extend_from_slice(payload);
    cell
}

fn table_interior_cell(left: u32, key: u64) -> Vec<u8> {
    let mut cell = left.to_be_bytes().to_vec();
    cell.extend(encode_varint(key));
    cell
}

fn index_leaf_cell(payload: &[u8]) -> Vec<u8> {
    let mut cell = encode_varint(payload.len() as u64);
    cell.extend_from_slice(payload);
    cell
}

fn index_interior_cell(left: u32, payload: &[u8]) -> Vec<u8> {
    let mut cell = left.to_be_bytes().to_vec();
    cell.extend(encode_varint(payload.len() as u64));
    cell.extend_from_slice(payload);
    cell
}

/// A page of `size` bytes with these cells; the first cell lies at the end
/// of the page, each next one before it. `skip` bytes stay free before the
/// page header.
fn page_of(size: usize, skip: usize, page_type: u8, cells: &[Vec<u8>], right: Option<u32>) -> Vec<u8> {
    let mut page = vec![0u8; size];
    page[skip] = page_type;
    page[skip + 3..skip + 5].copy_from_slice(&(cells.len() as u16).to_be_bytes());
    let mut at = skip + 8;
    if let Some(right) = right {
        page[at..at + 4].copy_from_slice(&right.to_be_bytes());
        at += 4;
    }
    let mut end = size;
    for cell in cells {
        let start = end - cell.len();
        assert!(start >= at + 2 * cells.len());
        page[start..end].copy_from_slice(cell);
        page[at..at + 2].copy_from_slice(&(start as u16).to_be_bytes());
        at += 2;
        end = start;
    }
    page[skip + 5..skip + 7].copy_from_slice(&(end as u16).to_be_bytes());
    page
}

fn leaf(cells: &[Vec<u8>]) -> Vec<u8> {
    page_of(PAGE, 0, 0x0d, cells, None)
}

fn schema_row(rowid: u64, kind: &str, name: &str, table: &str, root: i64, sql: &str) -> Vec<u8> {
    table_leaf_cell(rowid, &record(&[t(kind), t(name), t(table), Val::Int(root), t(sql)]))
}

/// A database file: page 1 holds the schema rows, the other pages follow.
fn database(schema_cells: &[Vec<u8>], pages: &[Vec<u8>]) -> Vec<u8> {
    let mut file = page_of(PAGE, 100, 0x0d, schema_cells, None);
    file[..16].copy_from_slice(b"SQLite format 3\0");
    file[16..18].copy_from_slice(&(PAGE as u16).to_be_bytes());
    for p in pages {
        assert_eq!(p.len(), PAGE);
        file.extend_from_slice(p);
    }
    file
}

fn header() -> DbHeader {
    DbHeader { page_size: PAGE as u16 }
}

fn row(rowid: u64, values: &[Val]) -> Vec<u8> {
    table_leaf_cell(rowid, &record(values))
}

fn text_value(s: &str) -> SqlValue {
    SqlValue::Text(s.to_string())
}

fn lines(texts: &[&str]) -> Vec<String> {
    texts.iter().map(|t| t.to_string()).collect()
}

/// A table of two levels on pages 2 to 5: page 2 is the root, with the
/// leaves 3 and 4 under its cells and the leaf 5 under its rightmost
/// pointer.
fn two_level_table() -> Vec<u8> {
    let root = page_of(
        PAGE,
        0,
        0x05,
        &[table_interior_cell(3, 2), table_interior_cell(4, 5)],
        Some(5),
    );
    let first = leaf(&[row(1, &[t("a"), t("x")]), row(2, &[t("b"), t("y")])]);
    let second = leaf(&[row(4, &[t("c"), t("x")]), row(5, &[t("d"), Val::Null])]);
    let third = leaf(&[row(9, &[t("e"), t("x")])]);
    database(
        &[schema_row(1, "table", "t", "t", 2, "CREATE TABLE t (name text, tag text)")],
        &[root, first, second, third],
    )
}

#[test]
fn file_header_gives_the_page_size() {
    let mut file = vec![0u8; 100];
    file[16] = 0x10;
    assert_eq!(DbHeader::from_file(&file), Ok(DbHeader { page_size: 4096 }));
    file[16] = 0x02;
    file[17] = 0x01;
    assert_eq!(DbHeader::from_file(&file), Ok(DbHeader { page_size: 513 }));
    assert_eq!(DbHeader::from_file(&file[..99]), Err(Error::Io));
    assert_eq!(DbHeader::len(), 100);
}

#[test]
fn page_header_of_a_leaf_and_of_an_interior_page() {
    let data = [0x0d, 0x00, 0x10, 0x00, 0x03, 0x0f, 0xbd, 0x02, 0xaa, 0xbb, 0xcc, 0xdd];
    let (h, n) = PageHeader::from_data(&data).unwrap();
    assert_eq!(n, 8);
    assert_eq!(
        h,
        PageHeader {
            page_type: 0x0d,
            first_freeblock: 0x10,
            num_cells: 3,
            cell_content_start: 0x0fbd,
            num_fragments: 2,
            rightmost_pointer: None,
        }
    );
    assert_eq!(h.len(), 8);
    assert!(!h.is_interior());
    for page_type in [0x02u8, 0x05] {
        let mut data = data;
        data[0] = page_type;
        let (h, n) = PageHeader::from_data(&data).unwrap();
        assert_eq!(n, 12);
        assert_eq!(h.rightmost_pointer, Some(0xaabbccdd));
        assert_eq!(h.len(), 12);
        assert!(h.is_interior());
        assert_eq!(PageHeader::from_data(&data[..11]), Err(Error::Decode));
    }
    assert_eq!(PageHeader::from_data(&data[..8]).unwrap().1, 8);
    assert_eq!(PageHeader::from_data(&data[..7]), Err(Error::Decode));
    assert_eq!(PageHeader::from_data(&[]), Err(Error::Decode));
}

#[test]
fn page_bytes_by_number() {
    let file: Vec<u8> = (0..40u8).collect();
    assert_eq!(page_slice(&file, 16, 1), Some(&file[0..16]));
    assert_eq!(page_slice(&file, 16, 2), Some(&file[16..32]));
    assert_eq!(page_slice(&file, 16, 3), None);
    assert_eq!(page_slice(&file, 16, 0), None);
    assert_eq!(page_slice(&file, 16, u64::MAX), None);
    assert_eq!(page_slice(&file, 0, 5), Some(&file[0..0]));
    let h = DbHeader { page_size: 16 };
    let page = OverflowPage::from_file(&file, 2, &h).unwrap();
    assert_eq!(page.data(), &file[16..32]);
    assert!(OverflowPage::from_file(&file, 3, &h).is_err());
}

#[test]
fn loaded_page_has_a_pointer_for_each_cell() {
    let file = two_level_table();
    let h = header();
    let page = Page::from_file(&file, 3, &h).unwrap();
    assert_eq!(page.number(), 3);
    assert_eq!(page.num_cells(), 2);
    assert_eq!(page.header().num_cells, 2);
    assert_eq!(page.data(), &file[2 * PAGE..3 * PAGE]);
    for i in 0..page.num_cells() {
        assert!((page.cell_pointer(i) as usize) < PAGE);
    }
    let first = page.cell_pointer(0) as usize;
    assert_eq!(first, PAGE - row(1, &[t("a"), t("x")]).len());
    let root = Page::from_file(&file, 2, &h).unwrap();
    assert_eq!(root.header().rightmost_pointer, Some(5));
    assert!(root.header().is_interior());
    let schema = Page::from_file(&file, 1, &h).unwrap();
    assert_eq!(schema.num_cells(), 1);
    assert_eq!(schema.header().page_type, 0x0d);
}

#[test]
fn malformed_pages_are_decode_errors() {
    let h = DbHeader { page_size: 32 };
    let mut file = vec![0u8; 64];
    file[32] = 0x0d;
    file[32 + 4] = 1;
    file[32 + 8] = 0;
    file[32 + 9] = 31;
    assert!(Page::from_file(&file, 2, &h).is_ok());
    file[32 + 9] = 32;
    assert!(matches!(Page::from_file(&file, 2, &h), Err(Error::Decode)));
    file[32 + 9] = 31;
    file[32 + 4] = 13;
    assert!(matches!(Page::from_file(&file, 2, &h), Err(Error::Decode)));
    file[32 + 4] = 12;
    assert!(Page::from_file(&file, 2, &h).is_ok());
    assert!(matches!(Page::from_file(&file, 1, &h), Err(Error::Decode)));
    let tiny = DbHeader { page_size: 4 };
    assert!(matches!(Page::from_file(&file, 2, &tiny), Err(Error::Decode)));
    assert!(matches!(Page::from_file(&file, 3, &h), Err(Error::Io)));
}

#[test]
fn cell_prefixes_of_the_three_shapes() {
    let mut data = vec![0xeeu8; 4];
    data.extend([0x82, 0x2c, 0x07, 0x01, 0x02]);
    assert_eq!(
        read_cell_prefix(&data, 4, CellShape::TableLeaf),
        Ok((RecordStart::RowId(7), 300, 7))
    );
    assert_eq!(
        read_cell_prefix(&data, 4, CellShape::IndexLeaf),
        Ok((RecordStart::Nothing, 300, 6))
    );
    assert_eq!(
        read_cell_prefix(&data, 0, CellShape::IndexInterior),
        Ok((RecordStart::LeftPage(0xeeeeeeee), 300, 6))
    );
    assert_eq!(read_cell_prefix(&data, 9, CellShape::TableLeaf), Err(Error::Decode));
    assert_eq!(read_cell_prefix(&data, 8, CellShape::TableLeaf), Err(Error::Decode));
    assert_eq!(read_cell_prefix(&data, 6, CellShape::IndexInterior), Err(Error::Decode));
    assert_eq!(read_cell_prefix(&data[..5], 4, CellShape::IndexLeaf), Err(Error::Decode));
}

#[test]
fn records_are_split_into_header_and_body() {
    assert_eq!(parse_record(&[0x01]), Ok(vec![]));
    assert_eq!(
        parse_record(&record(&[Val::Null, Val::Int(-3), t("Fuji"), Val::One, Val::Blob(vec![1, 2])])),
        Ok(vec![
            SqlValue::Null,
            SqlValue::I8(-3),
            text_value("Fuji"),
            SqlValue::One,
            SqlValue::Blob(vec![1, 2])
        ])
    );
    assert_eq!(parse_record(&[0x02, 0x01, 0x05, 0x99]), Ok(vec![SqlValue::I8(5)]));
    assert_eq!(
        parse_record(&[0x03, 0x01, 0x00, 0x05]),
        Ok(vec![SqlValue::I8(5), SqlValue::Null])
    );
}

#[test]
fn malformed_records_are_decode_errors() {
    assert_eq!(parse_record(&[]), Err(Error::Decode));
    assert_eq!(parse_record(&[0x00]), Err(Error::Decode));
    assert_eq!(parse_record(&[0x03, 0x01]), Err(Error::Decode));
    assert_eq!(parse_record(&[0x02, 0x01]), Err(Error::Decode));
    assert_eq!(parse_record(&[0x02, 0x0a]), Err(Error::Decode));
    assert_eq!(parse_record(&[0x02, 0x0f, 0xff]), Err(Error::Decode));
    assert_eq!(parse_record(&[0x80]), Err(Error::Decode));
}

#[test]
fn record_of_a_table_leaf_cell() {
    let file = two_level_table();
    let h = header();
    let page = Page::from_file(&file, 4, &h).unwrap();
    assert_eq!(
        read_record(&file, &h, &page, 1, CellShape::TableLeaf),
        Ok(Record {
            record_start: RecordStart::RowId(5),
            payload_size: record(&[t("d"), Val::Null]).len() as u64,
            values: vec![text_value("d"), SqlValue::Null],
        })
    );
}

/// A file of four pages of 64 bytes: page 1 is empty, page 2 is a table
/// leaf whose one cell holds the beginning of a payload of `payload.len()`
/// bytes, pages 3 and 4 hold the rest.
fn spilled(payload: &[u8], local: usize) -> Vec<u8> {
    let mut cell = encode_varint(payload.len() as u64);
    cell.extend(encode_varint(77));
    cell.extend_from_slice(&payload[..local]);
    cell.extend_from_slice(&3u32.to_be_bytes());
    let mut file = vec![0u8; 64];
    file.extend(page_of(64, 0, 0x0d, &[cell], None));
    let rest = &payload[local..];
    let mut second = vec![0u8; 64];
    second[..4].copy_from_slice(&4u32.to_be_bytes());
    let n = rest.len().min(60);
    second[4..4 + n].copy_from_slice(&rest[..n]);
    let mut third = vec![0u8; 64];
    let m = rest.len() - n;
    third[4..4 + m].copy_from_slice(&rest[n..]);
    file.extend(second);
    file.extend(third);
    file
}

#[test]
fn payload_that_spills_is_gathered_from_the_overflow_chain() {
    let text = "The quick brown fox jumps over the lazy dog, and over the fence, twice.";
    let mut text = text.to_string();
    text.push_str(" Then it rests under the old oak tree.");
    let payload = record(&[t(&text), Val::Int(5)]);
    assert!(payload.len() > 100 && payload.len() < 150);
    let file = spilled(&payload, 40);
    let h = DbHeader { page_size: 64 };
    let page = Page::from_file(&file, 2, &h).unwrap();
    let found = read_record(&file, &h, &page, 0, CellShape::TableLeaf).unwrap();
    assert_eq!(found.record_start, RecordStart::RowId(77));
    assert_eq!(found.payload_size, payload.len() as u64);
    assert_eq!(found.values, vec![text_value(&text), SqlValue::I8(5)]);
    let start = page.cell_pointer(0) as usize + 2;
    assert_eq!(
        read_payload(&file, &h, page.data(), start, payload.len() as u64),
        Ok(payload.clone())
    );
    assert_eq!(
        read_overflow(&file, &h, 3, payload.len() - 40),
        Ok(payload[40..].to_vec())
    );
    assert_eq!(read_overflow(&file, &h, 4, 10), Ok(payload[100..110].to_vec()));
}

#[test]
fn payload_on_the_page_is_read_from_the_page_alone() {
    let payload = record(&[t("Fuji"), t("Red")]);
    let cell = table_leaf_cell(3, &payload);
    let mut page_bytes = vec![0u8; 64];
    page_bytes.extend(page_of(64, 0, 0x0d, &[cell], None));
    let h = DbHeader { page_size: 64 };
    let mut with_more = page_bytes.clone();
    with_more.extend(vec![0xabu8; 128]);
    let a = Page::from_file(&page_bytes, 2, &h).unwrap();
    let b = Page::from_file(&with_more, 2, &h).unwrap();
    let from_a = read_record(&page_bytes, &h, &a, 0, CellShape::TableLeaf).unwrap();
    let from_b = read_record(&with_more, &h, &b, 0, CellShape::TableLeaf).unwrap();
    assert_eq!(from_a, from_b);
    assert_eq!(from_a.values, vec![text_value("Fuji"), text_value("Red")]);
    let other = DbHeader { page_size: 32 };
    assert_eq!(read_record(&[], &other, &a, 0, CellShape::TableLeaf), Ok(from_a));
}

#[test]
fn broken_overflow_chains_are_errors() {
    let payload = record(&[Val::Blob(vec![7u8; 120])]);
    let h = DbHeader { page_size: 64 };
    let mut file = spilled(&payload, 40);
    let page = Page::from_file(&file, 2, &h).unwrap();
    assert!(read_record(&file, &h, &page, 0, CellShape::TableLeaf).is_ok());
    // the chain ends before the payload is together
    file[128..132].copy_from_slice(&0u32.to_be_bytes());
    assert_eq!(read_record(&file, &h, &page, 0, CellShape::TableLeaf), Err(Error::Decode));
    // the chain leaves the file
    file[128..132].copy_from_slice(&9u32.to_be_bytes());
    assert_eq!(read_record(&file, &h, &page, 0, CellShape::TableLeaf), Err(Error::Io));
    // the chain turns back on itself: the walk ends all the same
    file[128..132].copy_from_slice(&3u32.to_be_bytes());
    assert!(read_overflow(&file, &h, 3, 150).is_ok());
    assert_eq!(read_overflow(&file, &h, 3, 150).unwrap().len(), 150);
    // nothing to gather
    assert_eq!(read_overflow(&file, &h, 0, 0), Ok(vec![]));
    assert_eq!(read_overflow(&file, &h, 0, 1), Err(Error::Decode));
    assert_eq!(read_overflow(&file, &h, 5, 1), Err(Error::Io));
    let tiny = DbHeader { page_size: 4 };
    assert_eq!(read_overflow(&file, &tiny, 1, 1), Err(Error::Decode));
}

#[test]
fn payload_larger_than_the_file_is_a_decode_error() {
    let h = DbHeader { page_size: 64 };
    let mut cell = encode_varint(1000);
    cell.extend(encode_varint(1));
    cell.extend(vec![0u8; 20]);
    let mut file = vec![0u8; 64];
    file.extend(page_of(64, 0, 0x0d, &[cell], None));
    let page = Page::from_file(&file, 2, &h).unwrap();
    assert_eq!(read_record(&file, &h, &page, 0, CellShape::TableLeaf), Err(Error::Decode));
    // too little room on the page for the number of the overflow page
    let mut cell = encode_varint(30);
    cell.extend(encode_varint(1));
    cell.extend(vec![0u8; 1]);
    let mut file = vec![0u8; 64];
    file.extend(page_of(64, 0, 0x0d, &[cell], None));
    let page = Page::from_file(&file, 2, &h).unwrap();
    assert_eq!(read_record(&file, &h, &page, 0, CellShape::TableLeaf), Err(Error::Decode));
}

#[test]
fn scan_goes_through_the_tree_from_left_to_right() {
    let file = two_level_table();
    let h = header();
    let rows = full_table_scan(&file, &h, 2).unwrap();
    let ids: Vec<u64> = rows.iter().map(|r| r.rowid().unwrap()).collect();
    assert_eq!(ids, vec![1, 2, 4, 5, 9]);
    assert_eq!(rows[3].values, vec![text_value("d"), SqlValue::Null]);
    assert_eq!(count_rows(&file, &h, 2), Ok(5));
    assert_eq!(count_rows(&file, &h, 4), Ok(2));
    assert_eq!(full_table_scan(&file, &h, 5).unwrap().len(), 1);
}

#[test]
fn scan_holds_as_many_records_as_the_leaves_have_cells() {
    let file = two_level_table();
    let h = header();
    let mut cells = 0;
    for p in 3..=5 {
        cells += Page::from_file(&file, p, &h).unwrap().num_cells();
    }
    assert_eq!(full_table_scan(&file, &h, 2).unwrap().len(), cells);
    assert_eq!(count_rows(&file, &h, 2), Ok(cells as u64));
}

#[test]
fn lookup_goes_down_one_child() {
    let file = two_level_table();
    let h = header();
    for row in full_table_scan(&file, &h, 2).unwrap() {
        assert_eq!(row_lookup(&file, &h, 2, row.rowid().unwrap()), Ok(vec![row]));
    }
    for missing in [0, 3, 6, 8, 10, u64::MAX] {
        assert_eq!(row_lookup(&file, &h, 2, missing), Ok(vec![]));
    }
    let root = Page::from_file(&file, 2, &h).unwrap();
    assert_eq!(read_left_child(&root, 0), Ok(3));
    assert_eq!(read_left_child(&root, 1), Ok(4));
    assert_eq!(read_table_interior_cell(&root, 0), Ok((3, 2)));
    assert_eq!(read_table_interior_cell(&root, 1), Ok((4, 5)));
}

#[test]
fn search_ends_on_the_leaf_of_the_rowid() {
    let file = two_level_table();
    let h = header();
    for (rowid, leaf) in [(0u64, 3u64), (1, 3), (2, 3), (3, 4), (4, 4), (5, 4), (6, 5), (9, 5), (u64::MAX, 5)] {
        assert_eq!(btree_pagenum_search(&file, &h, 2, rowid), Ok(leaf));
    }
    assert_eq!(btree_pagenum_search(&file, &h, 4, 1), Ok(4));
    assert_eq!(btree_pagenum_search(&file, &h, 1, 1), Ok(1));
    assert_eq!(btree_pagenum_search(&file, &h, 6, 1), Err(Error::Io));
    let root = Page::from_file(&file, 2, &h).unwrap();
    assert_eq!(lookup_child(&root, 2), Ok(3));
    assert_eq!(lookup_child(&root, 3), Ok(4));
    assert_eq!(lookup_child(&root, 6), Ok(5));
}

#[test]
fn lookup_in_a_table_out_of_order_misses_or_doubles() {
    let h = header();
    // the same row-id stands twice on a leaf
    let twice = leaf(&[row(5, &[t("a")]), row(5, &[t("b")])]);
    let file = database(&[], &[twice]);
    assert_eq!(row_lookup(&file, &h, 2, 5).unwrap().len(), 2);
    // a row stands under a child whose key is below its row-id
    let root = page_of(PAGE, 0, 0x05, &[table_interior_cell(3, 2)], Some(4));
    let left = leaf(&[row(1, &[t("a")]), row(8, &[t("b")])]);
    let right = leaf(&[row(9, &[t("c")])]);
    let file = database(&[], &[root, left, right]);
    assert_eq!(full_table_scan(&file, &h, 2).unwrap().len(), 3);
    assert_eq!(row_lookup(&file, &h, 2, 8), Ok(vec![]));
    assert_eq!(row_lookup(&file, &h, 2, 1).unwrap().len(), 1);
}

#[test]
fn lookup_does_not_read_other_subtrees() {
    let mut file = two_level_table();
    // page 4 is turned into a page of no known type
    file[3 * PAGE] = 0x00;
    let h = header();
    assert_eq!(row_lookup(&file, &h, 2, 1).unwrap().len(), 1);
    assert_eq!(row_lookup(&file, &h, 2, 9).unwrap().len(), 1);
    assert_eq!(row_lookup(&file, &h, 2, 4), Err(Error::Decode));
    assert_eq!(full_table_scan(&file, &h, 2), Err(Error::Decode));
    assert_eq!(count_rows(&file, &h, 2), Err(Error::Decode));
}

#[test]
fn pages_that_point_in_a_circle_end_in_an_error() {
    let h = header();
    let looping = page_of(PAGE, 0, 0x05, &[table_interior_cell(2, 10)], Some(2));
    let file = database(&[], &[looping]);
    assert_eq!(full_table_scan(&file, &h, 2), Err(Error::Decode));
    assert_eq!(row_lookup(&file, &h, 2, 5), Err(Error::Decode));
    assert_eq!(row_lookup(&file, &h, 2, 50), Err(Error::Decode));
    assert_eq!(count_rows(&file, &h, 2), Err(Error::Decode));
    let looping = page_of(PAGE, 0, 0x02, &[], Some(2));
    let file = database(&[], &[looping]);
    assert_eq!(index_scan(&file, &h, 2, "x"), Err(Error::Decode));
    assert_eq!(MAX_DEPTH, 32);
}

#[test]
fn child_pointer_zero_is_an_io_error() {
    let h = header();
    let root = page_of(PAGE, 0, 0x05, &[], Some(0));
    let file = database(&[], &[root]);
    assert_eq!(full_table_scan(&file, &h, 2), Err(Error::Io));
    assert_eq!(count_rows(&file, &h, 2), Err(Error::Io));
    assert_eq!(row_lookup(&file, &h, 2, 1), Err(Error::Io));
}

fn entry(key: &str, rowid: i64) -> Vec<u8> {
    record(&[t(key), Val::Int(rowid)])
}

/// An index of two levels on pages 2 to 6. The root has three cells with
/// the keys `c`, `m` and `m`, over leaves with the keys up to each, and a
/// rightmost leaf.
fn two_level_index() -> Vec<u8> {
    let root = page_of(
        PAGE,
        0,
        0x02,
        &[
            index_interior_cell(3, &entry("c", 30)),
            index_interior_cell(4, &entry("m", 31)),
            index_interior_cell(5, &entry("m", 32)),
        ],
        Some(6),
    );
    let a = page_of(
        PAGE,
        0,
        0x0a,
        &[index_leaf_cell(&entry("a", 1)), index_leaf_cell(&entry("c", 2))],
        None,
    );
    let b = page_of(
        PAGE,
        0,
        0x0a,
        &[
            index_leaf_cell(&entry("c", 3)),
            index_leaf_cell(&entry("k", 4)),
            index_leaf_cell(&entry("m", 5)),
        ],
        None,
    );
    let c = page_of(
        PAGE,
        0,
        0x0a,
        &[index_leaf_cell(&entry("m", 6)), index_leaf_cell(&entry("m", 300))],
        None,
    );
    let d = page_of(
        PAGE,
        0,
        0x0a,
        &[
            index_leaf_cell(&entry("m", 7)),
            index_leaf_cell(&record(&[t("z"), Val::One])),
        ],
        None,
    );
    database(&[], &[root, a, b, c, d])
}

#[test]
fn probe_goes_down_under_equal_keys_and_the_first_greater_one() {
    let file = two_level_index();
    let h = header();
    assert_eq!(index_scan(&file, &h, 2, "a"), Ok(vec![1]));
    assert_eq!(index_scan(&file, &h, 2, "c"), Ok(vec![2, 3]));
    assert_eq!(index_scan(&file, &h, 2, "k"), Ok(vec![4]));
    assert_eq!(index_scan(&file, &h, 2, "m"), Ok(vec![5, 6, 300, 7]));
    assert_eq!(index_scan(&file, &h, 2, "z"), Ok(vec![1]));
    assert_eq!(index_scan(&file, &h, 2, "b"), Ok(vec![]));
    assert_eq!(index_scan(&file, &h, 2, "zz"), Ok(vec![]));
    assert_eq!(index_scan(&file, &h, 2, ""), Ok(vec![]));
    assert_eq!(index_scan(&file, &h, 5, "m"), Ok(vec![6, 300]));
}

#[test]
fn probe_reads_only_the_children_it_goes_down_into() {
    let mut file = two_level_index();
    // page 6, the rightmost leaf, is turned into a page of no known type
    file[5 * PAGE] = 0x00;
    let h = header();
    assert_eq!(index_scan(&file, &h, 2, "a"), Ok(vec![1]));
    assert_eq!(index_scan(&file, &h, 2, "k"), Ok(vec![4]));
    assert_eq!(index_scan(&file, &h, 2, "m"), Err(Error::Decode));
    assert_eq!(index_scan(&file, &h, 2, "z"), Err(Error::Decode));
}

#[test]
fn keys_that_are_no_texts_are_unsupported() {
    let h = header();
    let page = page_of(
        PAGE,
        0,
        0x0a,
        &[index_leaf_cell(&record(&[Val::Int(5), Val::Int(1)]))],
        None,
    );
    let file = database(&[], &[page]);
    assert_eq!(index_scan(&file, &h, 2, "5"), Err(Error::Unsupported));
    let page = page_of(PAGE, 0, 0x0a, &[index_leaf_cell(&record(&[Val::Null, Val::Int(1)]))], None);
    let file = database(&[], &[page]);
    assert_eq!(index_scan(&file, &h, 2, "x"), Err(Error::Unsupported));
    let page = page_of(PAGE, 0, 0x0a, &[index_leaf_cell(&record(&[]))], None);
    let file = database(&[], &[page]);
    assert_eq!(index_scan(&file, &h, 2, "x"), Err(Error::Decode));
    let page = page_of(PAGE, 0, 0x0a, &[index_leaf_cell(&record(&[t("x"), t("y")]))], None);
    let file = database(&[], &[page]);
    assert_eq!(index_scan(&file, &h, 2, "x"), Err(Error::Unsupported));
    assert_eq!(index_scan(&file, &h, 2, "w"), Ok(vec![]));
    let root = page_of(
        PAGE,
        0,
        0x02,
        &[index_interior_cell(3, &record(&[Val::Null, Val::Int(1)]))],
        Some(3),
    );
    let file = database(&[], &[root, page_of(PAGE, 0, 0x0a, &[], None)]);
    assert_eq!(index_scan(&file, &h, 2, "x"), Err(Error::Unsupported));
}

#[test]
fn key_and_rowid_of_an_index_record() {
    let make = |values: Vec<SqlValue>| Record {
        record_start: RecordStart::Nothing,
        payload_size: 0,
        values,
    };
    let r = make(vec![text_value("m"), SqlValue::I8(-1)]);
    assert_eq!(order_of_key(&r, "m"), Ok(TextOrder::Equal));
    assert_eq!(order_of_key(&r, "n"), Ok(TextOrder::Less));
    assert_eq!(order_of_key(&r, "a"), Ok(TextOrder::Greater));
    assert_eq!(rowid_of_entry(&r), Ok(u64::MAX));
    assert_eq!(rowid_of_entry(&make(vec![text_value("m"), SqlValue::One])), Ok(1));
    assert_eq!(rowid_of_entry(&make(vec![text_value("m"), SqlValue::Zero])), Ok(0));
    assert_eq!(rowid_of_entry(&make(vec![text_value("m")])), Err(Error::Unsupported));
    assert_eq!(rowid_of_entry(&make(vec![])), Err(Error::Decode));
    assert_eq!(order_of_key(&make(vec![]), "m"), Err(Error::Decode));
    assert_eq!(order_of_key(&make(vec![SqlValue::I8(1)]), "m"), Err(Error::Unsupported));
}

#[test]
fn schema_elements_of_rows() {
    let make = |values: Vec<SqlValue>| Record {
        record_start: RecordStart::RowId(1),
        payload_size: 0,
        values,
    };
    let good = vec![
        text_value("table"),
        text_value("apples"),
        text_value("apples"),
        SqlValue::I8(2),
        text_value("CREATE TABLE apples (a)"),
    ];
    assert_eq!(
        SqlSchemaElement::from_row(make(good.clone())),
        Ok(SqlSchemaElement {
            element_type: "table".to_string(),
            name: "apples".to_string(),
            tbl_name: "apples".to_string(),
            rootpage: 2,
            sql: "CREATE TABLE apples (a)".to_string(),
        })
    );
    for root in [SqlValue::I16(300), SqlValue::I24(300), SqlValue::I32(300), SqlValue::I48(300), SqlValue::I64(300)] {
        let mut row = good.clone();
        row[3] = root;
        assert_eq!(SqlSchemaElement::from_row(make(row)).unwrap().rootpage, 300);
    }
    let mut row = good.clone();
    row[3] = SqlValue::Zero;
    assert_eq!(SqlSchemaElement::from_row(make(row)).unwrap().rootpage, 0);
    for (i, bad) in [
        (0, SqlValue::Null),
        (1, SqlValue::I8(1)),
        (2, SqlValue::Blob(vec![])),
        (3, text_value("2")),
        (3, SqlValue::Null),
        (4, SqlValue::Null),
    ] {
        let mut row = good.clone();
        row[i] = bad;
        assert_eq!(SqlSchemaElement::from_row(make(row)), Err(Error::Schema));
    }
    assert_eq!(SqlSchemaElement::from_row(make(good[..4].to_vec())), Err(Error::Schema));
    let mut long = good.clone();
    long.push(SqlValue::Null);
    assert_eq!(SqlSchemaElement::from_row(make(long)), Err(Error::Schema));
    assert_eq!(SqlSchemaElement::from_row(make(vec![])), Err(Error::Schema));
}

#[test]
fn schema_is_read_from_a_table_leaf_only() {
    let file = two_level_table();
    let h = header();
    let first = Page::from_file(&file, 1, &h).unwrap();
    let schema = SqliteSchema::from_page(&file, &h, &first).unwrap();
    assert_eq!(schema.schema_elements.len(), 1);
    assert_eq!(schema.schema_elements[0].name, "t");
    let root = Page::from_file(&file, 2, &h).unwrap();
    assert_eq!(SqliteSchema::from_page(&file, &h, &root), Err(Error::Unsupported));
    let leaf = Page::from_file(&file, 3, &h).unwrap();
    assert_eq!(SqliteSchema::from_page(&file, &h, &leaf), Err(Error::Schema));
}

/// A database with the table `fruit(id integer primary key, name text,
/// color text, weight integer)` on page 2, an index on `color` on page 3
/// and an index on `name` on page 4.
fn fruit_db(with_indexes: bool) -> Vec<u8> {
    let rows = [
        (1u64, t("apple"), t("red"), Val::Int(150)),
        (2, t("cherry"), t("red"), Val::Int(8)),
        (3, t("lime"), t("green"), Val::Int(60)),
        (4, t("plum"), Val::Null, Val::Int(70)),
        (7, t("apple"), t("green"), Val::Int(140)),
    ];
    let cells: Vec<Vec<u8>> = rows
        .iter()
        .map(|(id, name, color, weight)| {
            row(*id, &[Val::Null, name.clone(), color.clone(), weight.clone()])
        })
        .collect();
    let table = leaf(&cells);
    let by_color = page_of(
        PAGE,
        0,
        0x0a,
        &[
            index_leaf_cell(&entry("green", 3)),
            index_leaf_cell(&entry("green", 7)),
            index_leaf_cell(&record(&[t("red"), Val::One])),
            index_leaf_cell(&entry("red", 2)),
        ],
        None,
    );
    let by_name = page_of(
        PAGE,
        0,
        0x0a,
        &[
            index_leaf_cell(&record(&[t("apple"), Val::One])),
            index_leaf_cell(&entry("apple", 7)),
            index_leaf_cell(&entry("cherry", 2)),
            index_leaf_cell(&entry("lime", 3)),
            index_leaf_cell(&entry("plum", 4)),
        ],
        None,
    );
    let mut schema = vec![schema_row(
        1,
        "table",
        "fruit",
        "fruit",
        2,
        "CREATE TABLE fruit (id integer primary key, name text, color text, weight integer)",
    )];
    if with_indexes {
        schema.push(schema_row(
            2,
            "index",
            "by_color",
            "fruit",
            3,
            "CREATE INDEX by_color ON fruit (color)",
        ));
        schema.push(schema_row(
            3,
            "index",
            "by_name",
            "fruit",
            4,
            "CREATE INDEX by_name ON fruit (name)",
        ));
    }
    database(&schema, &[table, by_color, by_name])
}

#[test]
fn answers_with_and_without_indexes_are_the_same() {
    let queries = [
        ("SELECT name FROM fruit", vec!["apple", "cherry", "lime", "plum", "apple"]),
        ("SELECT id, name FROM fruit WHERE color = 'red'", vec!["1|apple", "2|cherry"]),
        ("SELECT name, id FROM fruit WHERE color = 'green'", vec!["lime|3", "apple|7"]),
        ("SELECT id FROM fruit WHERE name = 'apple'", vec!["1", "7"]),
        ("SELECT id FROM fruit WHERE name = 'apple' AND color = 'green'", vec!["7"]),
        ("SELECT id FROM fruit WHERE color = 'green' AND name = 'apple'", vec!["7"]),
        ("SELECT id FROM fruit WHERE color = 'red' AND name = 'lime'", vec![]),
        ("SELECT id FROM fruit WHERE color = 'blue'", vec![]),
        ("SELECT id FROM fruit WHERE color = 'red' AND color = 'red'", vec!["1", "2"]),
        ("SELECT id FROM fruit WHERE color = 'red' AND color = 'green'", vec![]),
    ];
    for (query, expected) in queries {
        assert_eq!(run(&fruit_db(false), query), Ok(lines(&expected)), "{}", query);
        assert_eq!(run(&fruit_db(true), query), Ok(lines(&expected)), "{}", query);
    }
}

#[test]
fn conjunction_gives_the_rows_that_each_condition_gives() {
    for with_indexes in [false, true] {
        let file = fruit_db(with_indexes);
        let both = run(&file, "SELECT id FROM fruit WHERE name = 'apple' AND color = 'green'").unwrap();
        let by_name = run(&file, "SELECT id FROM fruit WHERE name = 'apple'").unwrap();
        let by_color = run(&file, "SELECT id FROM fruit WHERE color = 'green'").unwrap();
        let common: Vec<String> = by_name.iter().filter(|l| by_color.contains(l)).cloned().collect();
        assert_eq!(both, common);
        assert_eq!(both, lines(&["7"]));
    }
}

#[test]
fn null_is_left_out_of_a_line_and_fails_a_condition() {
    let file = fruit_db(false);
    assert_eq!(
        run(&file, "SELECT name, color, id FROM fruit WHERE name = 'plum'"),
        Ok(lines(&["plum|4"]))
    );
    assert_eq!(run(&file, "SELECT color FROM fruit WHERE name = 'plum'"), Ok(lines(&[""])));
    assert_eq!(run(&file, "SELECT name FROM fruit WHERE color = ''"), Ok(lines(&[])));
    assert_eq!(run(&file, "SELECT name FROM fruit WHERE id = '1'"), Ok(lines(&[])));
}

#[test]
fn values_that_are_no_texts_cannot_be_projected() {
    let file = fruit_db(false);
    assert_eq!(run(&file, "SELECT weight FROM fruit"), Err(Error::Unsupported));
    assert_eq!(run(&file, "SELECT name, weight FROM fruit WHERE color = 'red'"), Err(Error::Unsupported));
    assert_eq!(run(&file, "SELECT weight FROM fruit WHERE color = 'blue'"), Ok(lines(&[])));
}

#[test]
fn values_that_are_no_texts_cannot_be_compared() {
    for with_indexes in [false, true] {
        let file = fruit_db(with_indexes);
        assert_eq!(run(&file, "SELECT name FROM fruit WHERE weight = '150'"), Err(Error::Unsupported));
        assert_eq!(
            run(&file, "SELECT name FROM fruit WHERE weight = '8' AND name = 'cherry'"),
            Err(Error::Unsupported)
        );
        // the first condition that a row does not meet decides for the row
        assert_eq!(
            run(&file, "SELECT name FROM fruit WHERE name = 'pear' AND weight = '8'"),
            Ok(lines(&[]))
        );
        assert_eq!(
            run(&file, "SELECT name FROM fruit WHERE name = 'lime' AND weight = '60'"),
            Err(Error::Unsupported)
        );
    }
}

#[test]
fn the_name_id_stands_for_the_rowid() {
    let file = fruit_db(true);
    assert_eq!(run(&file, "SELECT id FROM fruit"), Ok(lines(&["1", "2", "3", "4", "7"])));
    assert_eq!(run(&file, "SELECT ID FROM fruit"), Err(Error::Schema));
    assert_eq!(
        run(&file, "SELECT id, id FROM fruit WHERE name = 'lime'"),
        Ok(lines(&["3|3"]))
    );
}

#[test]
fn pieces_of_the_planner() {
    let file = fruit_db(true);
    let h = header();
    let first = Page::from_file(&file, 1, &h).unwrap();
    let schema = SqliteSchema::from_page(&file, &h, &first).unwrap();
    assert_eq!(find_table(&schema, "fruit"), Some(0));
    assert_eq!(find_table(&schema, "by_name"), Some(2));
    assert_eq!(find_table(&schema, "veg"), None);
    assert!(is_usable_index(&schema.schema_elements[1], "fruit", "color"));
    assert!(!is_usable_index(&schema.schema_elements[1], "fruit", "name"));
    assert!(!is_usable_index(&schema.schema_elements[1], "veg", "color"));
    assert!(!is_usable_index(&schema.schema_elements[0], "fruit", "id"));
    assert_eq!(choose_index(&schema, "fruit", "color"), Some(3));
    assert_eq!(choose_index(&schema, "fruit", "name"), Some(4));
    assert_eq!(choose_index(&schema, "fruit", "weight"), None);
    assert_eq!(choose_index(&schema, "veg", "name"), None);
    let table = table_schema(&schema.schema_elements[0].sql).unwrap();
    assert_eq!(table.columns.len(), 4);
    assert_eq!(table_schema("CREATE INDEX i ON t (a)"), Err(Error::Unsupported));
    assert_eq!(table_schema("nonsense"), Err(Error::Unsupported));
    assert_eq!(
        plan_projection(&table, &vec!["name".to_string(), "id".to_string(), "weight".to_string()]),
        Ok(vec![Projected::Column(1), Projected::RowId, Projected::Column(3)])
    );
    assert_eq!(plan_projection(&table, &vec!["x".to_string()]), Err(Error::Schema));
    let clause = |c: &str, v: &str| WhereClause { column: c.to_string(), value: v.to_string() };
    assert_eq!(
        plan_conditions(&table, &vec![clause("color", "red"), clause("id", "1")]),
        Ok(vec![
            Condition { column: 2, value: "red".to_string() },
            Condition { column: 0, value: "1".to_string() }
        ])
    );
    assert_eq!(plan_conditions(&table, &vec![clause("x", "red")]), Err(Error::Schema));
    let stmt = SelectStmt {
        columns: vec!["name".to_string()],
        table: "fruit".to_string(),
        where_clause: vec![clause("color", "green")],
    };
    assert_eq!(execute_select(&file, &h, &schema, &stmt), Ok(lines(&["lime", "apple"])));
}

#[test]
fn a_broken_index_fails_the_query_that_uses_it() {
    let mut file = fruit_db(true);
    file[2 * PAGE] = 0x00;
    assert_eq!(run(&file, "SELECT name FROM fruit WHERE color = 'red'"), Err(Error::Decode));
    assert_eq!(
        run(&file, "SELECT id FROM fruit WHERE name = 'lime'"),
        Ok(lines(&["3"]))
    );
    assert_eq!(run(&file, "SELECT name FROM fruit"), Ok(lines(&["apple", "cherry", "lime", "plum", "apple"])));
}

#[test]
fn rowids_that_the_table_does_not_hold_give_no_row() {
    let mut file = fruit_db(true);
    // the index on color names row 5 for green, which the table does not hold
    let at = 2 * PAGE + PAGE - index_leaf_cell(&entry("green", 3)).len();
    assert_eq!(file[at + index_leaf_cell(&entry("green", 3)).len() - 1], 3);
    file[at + index_leaf_cell(&entry("green", 3)).len() - 1] = 5;
    assert_eq!(run(&file, "SELECT id, name FROM fruit WHERE color = 'green'"), Ok(lines(&["7|apple"])));
}

#[test]
fn rows_and_conditions() {
    let r = Record {
        record_start: RecordStart::RowId(12),
        payload_size: 0,
        values: vec![SqlValue::Null, text_value("lime"), SqlValue::I8(3)],
    };
    let cond = |column: usize, value: &str| Condition { column, value: value.to_string() };
    assert_eq!(compare_condition(&r, &cond(1, "lime")), Ok(true));
    assert_eq!(compare_condition(&r, &cond(1, "Lime")), Ok(false));
    assert_eq!(compare_condition(&r, &cond(0, "")), Ok(false));
    assert_eq!(compare_condition(&r, &cond(2, "3")), Err(Error::Unsupported));
    assert_eq!(compare_condition(&r, &cond(3, "lime")), Ok(false));
    assert_eq!(check_row(&r, &vec![]), Ok(true));
    assert_eq!(check_row(&r, &vec![cond(1, "lime"), cond(1, "lime")]), Ok(true));
    assert_eq!(check_row(&r, &vec![cond(1, "lime"), cond(0, "x")]), Ok(false));
    assert_eq!(check_row(&r, &vec![cond(0, "x"), cond(2, "3")]), Ok(false));
    assert_eq!(check_row(&r, &vec![cond(1, "lime"), cond(2, "3")]), Err(Error::Unsupported));
    assert_eq!(check_row(&r, &vec![cond(2, "3"), cond(0, "x")]), Err(Error::Unsupported));
    assert_eq!(text_of_projected(&r, Projected::RowId), Ok(Some("12".to_string())));
    assert_eq!(text_of_projected(&r, Projected::Column(0)), Ok(None));
    assert_eq!(text_of_projected(&r, Projected::Column(1)), Ok(Some("lime".to_string())));
    assert_eq!(text_of_projected(&r, Projected::Column(2)), Err(Error::Unsupported));
    assert_eq!(text_of_projected(&r, Projected::Column(3)), Ok(None));
    assert_eq!(project_row(&r, &vec![]), Ok(String::new()));
    assert_eq!(
        project_row(&r, &vec![Projected::Column(0), Projected::Column(1), Projected::RowId, Projected::Column(1)]),
        Ok("lime|12|lime".to_string())
    );
    assert_eq!(
        project_row(&r, &vec![Projected::Column(1), Projected::Column(2)]),
        Err(Error::Unsupported)
    );
    let no_rowid = Record { record_start: RecordStart::Nothing, payload_size: 0, values: vec![] };
    assert_eq!(project_row(&no_rowid, &vec![Projected::RowId]), Err(Error::Unsupported));
    let rows = vec![r, no_rowid];
    assert_eq!(
        lay_out(&rows, &vec![cond(1, "lime")], &vec![Projected::RowId]),
        Ok(lines(&["12"]))
    );
    assert_eq!(lay_out(&rows, &vec![], &vec![Projected::RowId]), Err(Error::Unsupported));
    assert_eq!(lay_out(&rows, &vec![], &vec![Projected::Column(1)]), Ok(lines(&["lime", ""])));
}

#[test]
fn surviving_rowids_are_those_of_every_list() {
    assert_eq!(intersect(&vec![vec![3, 1, 2, 3, 1]]), vec![3, 1, 2]);
    assert_eq!(intersect(&vec![vec![1, 2, 3, 4], vec![4, 2, 9]]), vec![2, 4]);
    assert_eq!(intersect(&vec![vec![1, 2, 3, 4], vec![4, 2, 9], vec![2]]), vec![2]);
    assert_eq!(intersect(&vec![vec![1, 2], vec![]]), Vec::<u64>::new());
    assert_eq!(intersect(&vec![vec![], vec![1]]), Vec::<u64>::new());
    assert_eq!(intersect(&vec![vec![5, 5], vec![5], vec![5, 5, 5]]), vec![5]);
    assert!(contains_rowid(&vec![1, 2, 3], 2));
    assert!(!contains_rowid(&vec![1, 2, 3], 4));
    assert!(!contains_rowid(&vec![], 0));
    assert!(in_all_others(&vec![vec![], vec![1, 2], vec![2]], 2));
    assert!(!in_all_others(&vec![vec![1], vec![1, 2], vec![2]], 1));
    assert!(in_all_others(&vec![vec![9]], 1));
}
