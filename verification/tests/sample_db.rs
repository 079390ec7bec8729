use sqlite_reader::btree::{count_rows, full_table_scan, row_lookup};
use sqlite_reader::command::{classify_command, run, Command};
use sqlite_reader::error::Error;
use sqlite_reader::index::index_scan;
use sqlite_reader::page_io::{DbHeader, Page};
use sqlite_reader::record::{read_record, CellShape, RecordStart};
use sqlite_reader::schema::SqliteSchema;
use sqlite_reader::typecodes::SqlValue;

/// A database of three pages of 4096 bytes: the table `apples(id INTEGER
/// PRIMARY KEY, name TEXT, color TEXT)` with three rows, and the index
/// `idx_color` on its column `color`.
fn sample_db() -> Vec<u8> {
    let mut file = vec![0u8; 12288];
    let parts: &[(usize, &[u8])] = &[
        (0, &[0x53, 0x51, 0x4c, 0x69, 0x74, 0x65, 0x20, 0x66, 0x6f, 0x72, 0x6d, 0x61, 0x74, 0x20, 0x33, 0x00, 0x10, 0x00, 0x01, 0x01, 0x00, 0x40, 0x20, 0x20, 0x00, 0x00, 0x00, 0x03, 0x00, 0x00, 0x00, 0x03]),
        (43, &[0x02, 0x00, 0x00, 0x00, 0x04]),
        (59, &[0x01]),
        (95, &[0x03, 0x00, 0x2e, 0x63, 0x01, 0x0d, 0x00, 0x00, 0x00, 0x02, 0x0f, 0x5f, 0x00, 0x0f, 0xa3, 0x0f, 0x5f]),
        (3935, &[0x42, 0x02, 0x06, 0x17, 0x1f, 0x19, 0x01, 0x5b, 0x69, 0x6e, 0x64, 0x65, 0x78, 0x69, 0x64, 0x78, 0x5f, 0x63, 0x6f, 0x6c, 0x6f, 0x72, 0x61, 0x70, 0x70, 0x6c, 0x65, 0x73, 0x03, 0x43, 0x52, 0x45, 0x41, 0x54, 0x45, 0x20, 0x49, 0x4e, 0x44, 0x45, 0x58, 0x20, 0x69, 0x64, 0x78, 0x5f, 0x63, 0x6f, 0x6c, 0x6f, 0x72, 0x20, 0x4f, 0x4e, 0x20, 0x61, 0x70, 0x70, 0x6c, 0x65, 0x73, 0x28, 0x63, 0x6f, 0x6c, 0x6f, 0x72, 0x29, 0x5b, 0x01, 0x07, 0x17, 0x19, 0x19, 0x01, 0x81, 0x11, 0x74, 0x61, 0x62, 0x6c, 0x65, 0x61, 0x70, 0x70, 0x6c, 0x65, 0x73, 0x61, 0x70, 0x70, 0x6c, 0x65, 0x73, 0x02, 0x43, 0x52, 0x45, 0x41, 0x54, 0x45, 0x20, 0x54, 0x41, 0x42, 0x4c, 0x45, 0x20, 0x61, 0x70, 0x70, 0x6c, 0x65, 0x73, 0x28, 0x69, 0x64, 0x20, 0x49, 0x4e, 0x54, 0x45, 0x47, 0x45, 0x52, 0x20, 0x50, 0x52, 0x49, 0x4d, 0x41, 0x52, 0x59, 0x20, 0x4b, 0x45, 0x59, 0x2c, 0x20, 0x6e, 0x61, 0x6d, 0x65, 0x20, 0x54, 0x45, 0x58, 0x54, 0x2c, 0x20, 0x63, 0x6f, 0x6c, 0x6f, 0x72, 0x20, 0x54, 0x45, 0x58, 0x54, 0x29, 0x0d, 0x00, 0x00, 0x00, 0x03, 0x0f, 0xbd, 0x00, 0x0f, 0xe3, 0x0f, 0xd6, 0x0f, 0xbd]),
        (8125, &[0x17, 0x03, 0x04, 0x00, 0x21, 0x1f, 0x48, 0x6f, 0x6e, 0x65, 0x79, 0x63, 0x72, 0x69, 0x73, 0x70, 0x42, 0x6c, 0x75, 0x73, 0x68, 0x20, 0x52, 0x65, 0x64, 0x0b, 0x02, 0x04, 0x00, 0x15, 0x13, 0x46, 0x75, 0x6a, 0x69, 0x52, 0x65, 0x64, 0x1b, 0x01, 0x04, 0x00, 0x25, 0x23, 0x47, 0x72, 0x61, 0x6e, 0x6e, 0x79, 0x20, 0x53, 0x6d, 0x69, 0x74, 0x68, 0x4c, 0x69, 0x67, 0x68, 0x74, 0x20, 0x47, 0x72, 0x65, 0x65, 0x6e, 0x0a, 0x00, 0x00, 0x00, 0x03, 0x0f, 0xdb, 0x00, 0x0f, 0xdb, 0x0f, 0xf1, 0x0f, 0xe9]),
        (12251, &[0x0d, 0x03, 0x1f, 0x01, 0x42, 0x6c, 0x75, 0x73, 0x68, 0x20, 0x52, 0x65, 0x64, 0x03, 0x07, 0x03, 0x13, 0x01, 0x52, 0x65, 0x64, 0x02, 0x0e, 0x03, 0x23, 0x09, 0x4c, 0x69, 0x67, 0x68, 0x74, 0x20, 0x47, 0x72, 0x65, 0x65, 0x6e]),
    ];
    for (offset, bytes) in parts {
        file[*offset..*offset + bytes.len()].copy_from_slice(bytes);
    }
    file
}

fn lines(texts: &[&str]) -> Vec<String> {
    texts.iter().map(|t| t.to_string()).collect()
}

#[test]
fn dbinfo_gives_page_size_and_number_of_tables() {
    let file = sample_db();
    assert_eq!(
        run(&file, ".dbinfo"),
        Ok(lines(&["database page size: 4096", "number of tables: 2"]))
    );
}

#[test]
fn tables_lists_the_names_in_page_order() {
    let file = sample_db();
    assert_eq!(run(&file, ".tables"), Ok(lines(&["apples", "idx_color"])));
}

#[test]
fn count_gives_the_number_of_rows() {
    let file = sample_db();
    assert_eq!(run(&file, "SELECT COUNT(*) FROM apples"), Ok(lines(&["3"])));
    assert_eq!(run(&file, "select count(*) from apples"), Ok(lines(&["3"])));
}

#[test]
fn select_of_one_column_gives_all_rows_in_page_order() {
    let file = sample_db();
    assert_eq!(
        run(&file, "SELECT name FROM apples"),
        Ok(lines(&["Granny Smith", "Fuji", "Honeycrisp"]))
    );
}

#[test]
fn select_with_where_gives_the_matching_row() {
    let file = sample_db();
    assert_eq!(
        run(&file, "SELECT id, name FROM apples WHERE color = 'Red'"),
        Ok(lines(&["2|Fuji"]))
    );
}

#[test]
fn select_with_two_conditions_uses_the_index_and_the_filter() {
    let file = sample_db();
    assert_eq!(
        run(
            &file,
            "SELECT name, color FROM apples WHERE color = 'Blush Red' AND name = 'Honeycrisp'"
        ),
        Ok(lines(&["Honeycrisp|Blush Red"]))
    );
    assert_eq!(
        run(
            &file,
            "SELECT name, color FROM apples WHERE name = 'Honeycrisp' AND color = 'Blush Red'"
        ),
        Ok(lines(&["Honeycrisp|Blush Red"]))
    );
    assert_eq!(
        run(&file, "SELECT name FROM apples WHERE color = 'Red' AND name = 'Honeycrisp'"),
        Ok(lines(&[]))
    );
}

#[test]
fn repeated_queries_give_the_same_lines() {
    let file = sample_db();
    let query = "SELECT id, name, color FROM apples WHERE color = 'Light Green'";
    let first = run(&file, query);
    let second = run(&file, query);
    assert_eq!(first, Ok(lines(&["1|Granny Smith|Light Green"])));
    assert_eq!(first, second);
}

#[test]
fn select_without_matching_row_gives_no_line() {
    let file = sample_db();
    assert_eq!(run(&file, "SELECT name FROM apples WHERE color = 'Blue'"), Ok(lines(&[])));
    assert_eq!(run(&file, "SELECT name FROM apples WHERE name = 'Nobody'"), Ok(lines(&[])));
}

#[test]
fn unknown_table_and_column_are_schema_errors() {
    let file = sample_db();
    assert_eq!(run(&file, "SELECT name FROM pears"), Err(Error::Schema));
    assert_eq!(run(&file, "SELECT taste FROM apples"), Err(Error::Schema));
    assert_eq!(run(&file, "SELECT name FROM apples WHERE taste = 'x'"), Err(Error::Schema));
    assert_eq!(run(&file, "SELECT COUNT(*) FROM pears"), Err(Error::Schema));
}

#[test]
fn unknown_command_is_a_usage_error() {
    let file = sample_db();
    assert_eq!(run(&file, ".schema"), Err(Error::Usage));
    assert_eq!(run(&file, "DELETE FROM apples"), Err(Error::Usage));
}

#[test]
fn short_file_is_an_io_error() {
    assert_eq!(run(&[0u8; 99], ".dbinfo"), Err(Error::Io));
    assert_eq!(run(&[], ".tables"), Err(Error::Io));
    let file = sample_db();
    assert_eq!(run(&file[..4095], ".dbinfo"), Err(Error::Io));
    assert_eq!(run(&file[..8192], "SELECT name FROM apples WHERE color = 'Red'"), Err(Error::Io));
}

#[test]
fn commands_are_classified() {
    assert_eq!(classify_command(".dbinfo"), Command::DbInfo);
    assert_eq!(classify_command(".tables"), Command::Tables);
    assert_eq!(classify_command(".tokenize"), Command::Tokenize);
    assert_eq!(classify_command(".parse"), Command::Parse);
    assert_eq!(
        classify_command("select count(*) from apples"),
        Command::Count("apples".to_string())
    );
    assert_eq!(classify_command("SELECT COUNT(*) FROM "), Command::Count(String::new()));
    assert_eq!(classify_command("Select name from apples"), Command::Select);
    assert_eq!(classify_command("\u{17f}elect name from apples"), Command::Select);
    assert_eq!(classify_command("sélect name from apples"), Command::Unknown);
    assert_eq!(classify_command("selec"), Command::Unknown);
    assert_eq!(classify_command(""), Command::Unknown);
}

#[test]
fn header_and_schema_of_the_sample() {
    let file = sample_db();
    let header = DbHeader::from_file(&file).unwrap();
    assert_eq!(header.page_size, 4096);
    let page = Page::from_file(&file, 1, &header).unwrap();
    assert_eq!(page.num_cells(), 2);
    assert_eq!(page.header().page_type, 0x0d);
    assert!(!page.header().is_interior());
    let schema = SqliteSchema::from_page(&file, &header, &page).unwrap();
    assert_eq!(schema.schema_elements.len(), 2);
    assert_eq!(schema.schema_elements[0].element_type, "table");
    assert_eq!(schema.schema_elements[0].name, "apples");
    assert_eq!(schema.schema_elements[0].tbl_name, "apples");
    assert_eq!(schema.schema_elements[0].rootpage, 2);
    assert_eq!(
        schema.schema_elements[0].sql,
        "CREATE TABLE apples(id INTEGER PRIMARY KEY, name TEXT, color TEXT)"
    );
    assert_eq!(schema.schema_elements[1].element_type, "index");
    assert_eq!(schema.schema_elements[1].name, "idx_color");
    assert_eq!(schema.schema_elements[1].tbl_name, "apples");
    assert_eq!(schema.schema_elements[1].rootpage, 3);
    assert_eq!(schema.schema_elements[1].sql, "CREATE INDEX idx_color ON apples(color)");
}

#[test]
fn scan_of_the_sample_table() {
    let file = sample_db();
    let header = DbHeader::from_file(&file).unwrap();
    let rows = full_table_scan(&file, &header, 2).unwrap();
    assert_eq!(rows.len(), 3);
    assert_eq!(rows[0].record_start, RecordStart::RowId(1));
    assert_eq!(
        rows[0].values,
        vec![
            SqlValue::Null,
            SqlValue::Text("Granny Smith".to_string()),
            SqlValue::Text("Light Green".to_string())
        ]
    );
    assert_eq!(rows[1].rowid(), Some(2));
    assert_eq!(rows[2].rowid(), Some(3));
    assert_eq!(rows[2].left_page(), None);
    assert_eq!(count_rows(&file, &header, 2), Ok(3));
}

#[test]
fn lookup_finds_each_scanned_row() {
    let file = sample_db();
    let header = DbHeader::from_file(&file).unwrap();
    let rows = full_table_scan(&file, &header, 2).unwrap();
    for row in rows {
        let found = row_lookup(&file, &header, 2, row.rowid().unwrap()).unwrap();
        assert_eq!(found, vec![row]);
    }
    assert_eq!(row_lookup(&file, &header, 2, 4), Ok(vec![]));
    assert_eq!(row_lookup(&file, &header, 2, 0), Ok(vec![]));
}

#[test]
fn probe_of_the_sample_index() {
    let file = sample_db();
    let header = DbHeader::from_file(&file).unwrap();
    assert_eq!(index_scan(&file, &header, 3, "Red"), Ok(vec![2]));
    assert_eq!(index_scan(&file, &header, 3, "Light Green"), Ok(vec![1]));
    assert_eq!(index_scan(&file, &header, 3, "Blush Red"), Ok(vec![3]));
    assert_eq!(index_scan(&file, &header, 3, "Green"), Ok(vec![]));
    assert_eq!(index_scan(&file, &header, 3, ""), Ok(vec![]));
}

#[test]
fn index_agrees_with_scan_on_the_sample() {
    let file = sample_db();
    let header = DbHeader::from_file(&file).unwrap();
    let rows = full_table_scan(&file, &header, 2).unwrap();
    for color in ["Red", "Light Green", "Blush Red", "Blue"] {
        let mut from_scan: Vec<u64> = rows
            .iter()
            .filter(|r| r.values[2] == SqlValue::Text(color.to_string()))
            .map(|r| r.rowid().unwrap())
            .collect();
        let mut from_index = index_scan(&file, &header, 3, color).unwrap();
        from_scan.sort();
        from_index.sort();
        assert_eq!(from_scan, from_index);
    }
}

#[test]
fn walking_a_page_of_the_wrong_kind_is_a_decode_error() {
    let file = sample_db();
    let header = DbHeader::from_file(&file).unwrap();
    assert_eq!(full_table_scan(&file, &header, 3), Err(Error::Decode));
    assert_eq!(row_lookup(&file, &header, 3, 1), Err(Error::Decode));
    assert_eq!(count_rows(&file, &header, 3), Err(Error::Decode));
    assert_eq!(index_scan(&file, &header, 2, "Red"), Err(Error::Decode));
}

#[test]
fn pages_outside_the_file_are_io_errors() {
    let file = sample_db();
    let header = DbHeader::from_file(&file).unwrap();
    assert_eq!(full_table_scan(&file, &header, 0), Err(Error::Io));
    assert_eq!(full_table_scan(&file, &header, 4), Err(Error::Io));
    assert_eq!(index_scan(&file, &header, 4, "Red"), Err(Error::Io));
    assert!(Page::from_file(&file, 4, &header).is_err());
    assert!(Page::from_file(&file, u64::MAX, &header).is_err());
}

#[test]
fn index_leaf_record_of_the_sample() {
    let file = sample_db();
    let header = DbHeader::from_file(&file).unwrap();
    let page = Page::from_file(&file, 3, &header).unwrap();
    assert_eq!(page.num_cells(), 3);
    let record = read_record(&file, &header, &page, 1, CellShape::IndexLeaf).unwrap();
    assert_eq!(record.record_start, RecordStart::Nothing);
    assert_eq!(
        record.values,
        vec![SqlValue::Text("Light Green".to_string()), SqlValue::One]
    );
    assert_eq!(record.values[1].as_integer(), Some(1));
}
