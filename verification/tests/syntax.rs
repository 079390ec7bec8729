use sqlite_reader::chars::{all_ascii, decimal_string, string_of, to_chars, to_lower, to_upper};
use sqlite_reader::error::Error;
use sqlite_reader::schema::{Column, IndexSchema, TableSchema};
use sqlite_reader::syntax::create_index::CreateIndexStmt;
use sqlite_reader::syntax::create_table::{
    ColumnConstraint, ColumnDef, ConflictClause, CreateTableStmt, ForeignKeyClause,
    ForeignKeyTable, SchemaConstructor, SortOrder,
};
use sqlite_reader::syntax::parse;
use sqlite_reader::syntax::select::{SelectStmt, WhereClause};
use sqlite_reader::syntax::statement::Statement;
use sqlite_reader::syntax::tokenizer::{
    classify, is_alphanumeric, keyword, tokenize, word_token, CharacterClass, LiteralKind, Token,
};
use sqlite_reader::syntax::Parse;

fn ident(s: &str) -> Token {
    Token::Identifier(s.to_string())
}

fn op(s: &str) -> Token {
    Token::Operator(s.to_string())
}

fn text(s: &str) -> Token {
    Token::Literal(LiteralKind::Str(s.to_string()))
}

#[test]
fn characters_are_classified() {
    for c in [' ', '\t', '\n', '\r', '\u{0b}', '\u{0c}', '\u{85}', '\u{a0}', '\u{2003}', '\u{3000}'] {
        assert_eq!(classify(&c), CharacterClass::Whitespace);
    }
    for c in ['a', 'z', 'A', 'Z', '_', 'é', '\u{7f}', '\u{0f}', '漢'] {
        assert_eq!(classify(&c), CharacterClass::Alphabetic);
        assert!(is_alphanumeric(&c));
    }
    for c in ['0', '5', '9'] {
        assert_eq!(classify(&c), CharacterClass::Numeric);
        assert!(is_alphanumeric(&c));
    }
    for c in ['(', ')', ',', '=', '*', '-', '/', '\'', '.', ';', '@', '[', '`', '{', '\u{0}'] {
        assert_eq!(classify(&c), CharacterClass::Special);
        assert!(!is_alphanumeric(&c));
    }
}

#[test]
fn keywords_are_known_in_lower_case() {
    assert_eq!(keyword("select"), Some(Token::Select));
    assert_eq!(keyword("from"), Some(Token::From));
    assert_eq!(keyword("where"), Some(Token::Where));
    assert_eq!(keyword("set"), Some(Token::SetKeyword));
    assert_eq!(keyword("current_timestamp"), Some(Token::CurrentTimestamp));
    assert_eq!(keyword("without"), Some(Token::Without));
    assert_eq!(keyword("abort"), Some(Token::Abort));
    assert_eq!(keyword("SELECT"), None);
    assert_eq!(keyword("apples"), None);
    assert_eq!(keyword(""), None);
}

#[test]
fn words_are_keywords_whatever_their_case() {
    assert_eq!(word_token("SeLeCt".to_string()), Token::Select);
    assert_eq!(word_token("Apples".to_string()), ident("Apples"));
    assert_eq!(word_token("CURRENT_DATE".to_string()), Token::CurrentDate);
}

#[test]
fn case_of_texts() {
    assert_eq!(to_lower("SeLeCt_42 [Z]"), "select_42 [z]");
    assert_eq!(to_upper("SeLeCt_42 {z}"), "SELECT_42 {Z}");
    assert_eq!(to_lower(""), "");
    assert_eq!(to_lower("@AZ[`az{"), "@az[`az{");
    assert_eq!(to_upper("@AZ[`az{"), "@AZ[`AZ{");
    assert_eq!(to_lower("ÉCOLE Ω"), "école ω");
    assert_eq!(to_upper("école ß"), "ÉCOLE SS");
    assert_eq!(to_lower("\u{212a}EY"), "key");
    assert!(all_ascii(&['a', '\u{7f}', '\0']));
    assert!(!all_ascii(&['a', '\u{80}']));
    assert!(all_ascii(&[]));
}

#[test]
fn words_outside_ascii_are_folded_as_unicode_says() {
    assert_eq!(tokenize("\u{212a}EY"), vec![Token::Key]);
    assert_eq!(tokenize("ÉCOLE"), vec![ident("ÉCOLE")]);
    assert_eq!(word_token("\u{212a}ey".to_string()), Token::Key);
}

#[test]
fn tokens_of_a_select() {
    assert_eq!(
        tokenize("SELECT id, name FROM apples WHERE color = 'Red'"),
        vec![
            Token::Select,
            ident("id"),
            op(","),
            ident("name"),
            Token::From,
            ident("apples"),
            Token::Where,
            ident("color"),
            op("="),
            text("Red"),
        ]
    );
}

#[test]
fn tokens_of_strings() {
    assert_eq!(tokenize("'Blush Red'"), vec![text("Blush Red")]);
    assert_eq!(tokenize("''"), vec![text("")]);
    assert_eq!(tokenize("'it''s'"), vec![text("it's")]);
    assert_eq!(tokenize("'open"), vec![text("open")]);
    assert_eq!(tokenize("'a' 'b'"), vec![text("a"), text("b")]);
    assert_eq!(tokenize("'-- no comment'"), vec![text("-- no comment")]);
}

#[test]
fn tokens_of_numbers() {
    assert_eq!(tokenize("42"), vec![Token::Literal(LiteralKind::Integer("42".to_string()))]);
    assert_eq!(tokenize("4.25"), vec![Token::Literal(LiteralKind::Float("4.25".to_string()))]);
    assert_eq!(tokenize("1."), vec![Token::Literal(LiteralKind::Float("1.".to_string()))]);
    assert_eq!(
        tokenize("1.2.3"),
        vec![
            Token::Literal(LiteralKind::Float("1.2".to_string())),
            op("."),
            Token::Literal(LiteralKind::Integer("3".to_string())),
        ]
    );
    assert_eq!(
        tokenize("7up"),
        vec![Token::Literal(LiteralKind::Integer("7".to_string())), ident("up")]
    );
}

#[test]
fn comments_and_white_space_are_no_tokens() {
    assert_eq!(tokenize(""), vec![]);
    assert_eq!(tokenize("  \n\t "), vec![]);
    assert_eq!(tokenize("a -- b c\n d"), vec![ident("a"), ident("d")]);
    assert_eq!(tokenize("a -- to the end"), vec![ident("a")]);
    assert_eq!(tokenize("a /* b\n c */ d"), vec![ident("a"), ident("d")]);
    assert_eq!(tokenize("a /* never closed"), vec![ident("a")]);
    assert_eq!(tokenize("a /* * / */b"), vec![ident("a"), ident("b")]);
    assert_eq!(tokenize("a - b / c"), vec![ident("a"), op("-"), ident("b"), op("/"), ident("c")]);
}

#[test]
fn identifiers_keep_their_case_and_take_underscores() {
    assert_eq!(tokenize("idx_color"), vec![ident("idx_color")]);
    assert_eq!(tokenize("Name2 x"), vec![ident("Name2"), ident("x")]);
    assert_eq!(tokenize("a.b"), vec![ident("a"), op("."), ident("b")]);
    assert_eq!(tokenize("COUNT(*)"), vec![ident("COUNT"), op("("), op("*"), op(")")]);
}

#[test]
fn is_word_tells_keywords_apart() {
    assert!(Token::Select.is_word(&Token::Select));
    assert!(!Token::Select.is_word(&Token::From));
    assert!(!ident("select").is_word(&Token::Select));
    assert!(Token::SetKeyword.is_word(&Token::SetKeyword));
}

#[test]
fn parse_of_a_select() {
    assert_eq!(
        parse("SELECT id, name FROM apples WHERE color = 'Red' AND name = 'Fuji'"),
        Ok(Statement::Select(SelectStmt {
            columns: vec!["id".to_string(), "name".to_string()],
            table: "apples".to_string(),
            where_clause: vec![
                WhereClause { column: "color".to_string(), value: "Red".to_string() },
                WhereClause { column: "name".to_string(), value: "Fuji".to_string() },
            ],
        }))
    );
    assert_eq!(
        parse("select name from apples"),
        Ok(Statement::Select(SelectStmt {
            columns: vec!["name".to_string()],
            table: "apples".to_string(),
            where_clause: vec![],
        }))
    );
    assert_eq!(
        parse("select a from t where n = 5"),
        Ok(Statement::Select(SelectStmt {
            columns: vec!["a".to_string()],
            table: "t".to_string(),
            where_clause: vec![WhereClause { column: "n".to_string(), value: "5".to_string() }],
        }))
    );
}

#[test]
fn what_is_no_statement_is_unsupported() {
    for sql in [
        "",
        "apples",
        "SELECT",
        "SELECT name",
        "SELECT name FROM",
        "SELECT name FROM 'apples'",
        "SELECT COUNT(*) FROM apples",
        "SELECT name FROM apples WHERE",
        "SELECT name FROM apples WHERE color",
        "SELECT name FROM apples WHERE color = ",
        "SELECT name FROM apples WHERE color = red",
        "SELECT name FROM apples WHERE color = 'Red' AND",
        "CREATE",
        "CREATE VIEW v",
        "CREATE TABLE",
        "CREATE TABLE t",
        "CREATE TABLE t (a text,, b)",
        "CREATE TABLE t (a varchar(20))",
        "CREATE TABLE t (a text primary)",
        "CREATE TABLE t (a text not)",
        "CREATE TABLE t (a text",
        "CREATE TABLE IF NOT t (a)",
        "CREATE INDEX",
        "CREATE INDEX i",
        "CREATE INDEX i ON",
        "CREATE INDEX i ON t",
        "CREATE INDEX i ON t ()",
        "CREATE INDEX i ON t (a,)",
        "CREATE INDEX i ON t (a b)",
        "CREATE UNIQUE i ON t (a)",
        "DROP TABLE t",
    ] {
        assert_eq!(parse(sql), Err(Error::Unsupported), "{}", sql);
    }
}

fn column(name: &str, declared_type: Option<&str>, constraints: Vec<ColumnConstraint>) -> ColumnDef {
    ColumnDef {
        name: name.to_string(),
        declared_type: declared_type.map(|t| t.to_string()),
        constraints,
    }
}

#[test]
fn parse_of_a_create_table() {
    let parsed = parse("CREATE TABLE apples(id INTEGER PRIMARY KEY, name TEXT, color TEXT)");
    let expected = CreateTableStmt {
        temp: false,
        if_not_exists: false,
        schema_name: None,
        table_name: "apples".to_string(),
        schema_constructor: SchemaConstructor::FromColumns {
            columns: vec![
                column(
                    "id",
                    Some("INTEGER"),
                    vec![ColumnConstraint::PrimaryKey {
                        ord_: None,
                        conflict_clause: None,
                        autoincrement: false,
                    }],
                ),
                column("name", Some("TEXT"), vec![]),
                column("color", Some("TEXT"), vec![]),
            ],
            table_constraints: vec![],
        },
    };
    assert_eq!(parsed, Ok(Statement::CreateTable(expected)));
}

#[test]
fn parse_of_column_constraints() {
    let parsed = parse(
        "create table if not exists main.t (\n\
         a integer primary key desc on conflict replace autoincrement,\n\
         b text not null on conflict ignore unique,\n\
         c check default collate,\n\
         d foreign key (x, y) references other\n\
         );",
    );
    let expected = CreateTableStmt {
        temp: false,
        if_not_exists: true,
        schema_name: Some("main".to_string()),
        table_name: "t".to_string(),
        schema_constructor: SchemaConstructor::FromColumns {
            columns: vec![
                column(
                    "a",
                    Some("integer"),
                    vec![ColumnConstraint::PrimaryKey {
                        ord_: Some(SortOrder::Desc),
                        conflict_clause: Some(ConflictClause::Replace),
                        autoincrement: true,
                    }],
                ),
                column(
                    "b",
                    Some("text"),
                    vec![
                        ColumnConstraint::NotNull { conflict_clause: Some(ConflictClause::Ignore) },
                        ColumnConstraint::Unique,
                    ],
                ),
                column(
                    "c",
                    None,
                    vec![
                        ColumnConstraint::Check,
                        ColumnConstraint::Default,
                        ColumnConstraint::Collate,
                    ],
                ),
                column(
                    "d",
                    None,
                    vec![ColumnConstraint::ForeignKey(ForeignKeyClause {
                        foreign_table: ForeignKeyTable {
                            schema_name: None,
                            table_name: "other".to_string(),
                            column_names: vec!["x".to_string(), "y".to_string()],
                        },
                    })],
                ),
            ],
            table_constraints: vec![],
        },
    };
    assert_eq!(parsed, Ok(Statement::CreateTable(expected)));
}

#[test]
fn parse_of_create_table_as_select() {
    let parsed = parse("CREATE TABLE TEMP t AS SELECT a FROM u");
    let expected = CreateTableStmt {
        temp: true,
        if_not_exists: false,
        schema_name: None,
        table_name: "t".to_string(),
        schema_constructor: SchemaConstructor::AsSelect(SelectStmt {
            columns: vec!["a".to_string()],
            table: "u".to_string(),
            where_clause: vec![],
        }),
    };
    assert_eq!(parsed, Ok(Statement::CreateTable(expected)));
}

#[test]
fn parse_of_a_create_index() {
    assert_eq!(
        parse("CREATE INDEX idx_color ON apples(color)"),
        Ok(Statement::CreateIndex {
            stmt: CreateIndexStmt {
                if_not_exists: false,
                schema_name: None,
                index_name: "idx_color".to_string(),
                table_name: "apples".to_string(),
                columns: vec!["color".to_string()],
                where_clause: None,
            },
            unique: false,
        })
    );
    assert_eq!(
        parse("create unique index if not exists main.i on t (a, b) where a = 'x'"),
        Ok(Statement::CreateIndex {
            stmt: CreateIndexStmt {
                if_not_exists: true,
                schema_name: Some("main".to_string()),
                index_name: "i".to_string(),
                table_name: "t".to_string(),
                columns: vec!["a".to_string(), "b".to_string()],
                where_clause: Some(WhereClause { column: "a".to_string(), value: "x".to_string() }),
            },
            unique: true,
        })
    );
}

#[test]
fn parsers_give_the_place_behind_what_they_read() {
    let tokens = tokenize("color = 'Red' AND name");
    assert_eq!(
        WhereClause::parse(&tokens, 0),
        Ok((WhereClause { column: "color".to_string(), value: "Red".to_string() }, 3))
    );
    assert_eq!(WhereClause::parse(&tokens, 1), Err(Error::Unsupported));
    assert_eq!(WhereClause::parse(&tokens, tokens.len()), Err(Error::Unsupported));
    let tokens = tokenize("primary key asc, unique)");
    assert_eq!(
        ColumnConstraint::parse(&tokens, 0),
        Ok((
            ColumnConstraint::PrimaryKey {
                ord_: Some(SortOrder::Asc),
                conflict_clause: None,
                autoincrement: false
            },
            3
        ))
    );
    assert_eq!(ColumnConstraint::parse(&tokens, 4), Ok((ColumnConstraint::Unique, 5)));
    assert_eq!(ColumnConstraint::parse(&tokens, 3), Err(Error::Unsupported));
}

#[test]
fn table_schema_of_a_statement() {
    let stmt = match parse("CREATE TABLE apples(id INTEGER PRIMARY KEY, name TEXT, color TEXT)") {
        Ok(Statement::CreateTable(stmt)) => stmt,
        other => panic!("{:?}", other),
    };
    assert_eq!(stmt.cols().unwrap().len(), 3);
    let table = TableSchema::from_ast(&stmt).unwrap();
    assert_eq!(table.name, "apples");
    assert_eq!(
        table.columns,
        vec![
            Column { name: "id".to_string(), is_primary_key: true },
            Column { name: "name".to_string(), is_primary_key: false },
            Column { name: "color".to_string(), is_primary_key: false },
        ]
    );
    assert_eq!(table.primary_key_index(), Ok(Some(0)));
    assert_eq!(table.column_index("color"), Some(2));
    assert_eq!(table.column_index("id"), Some(0));
    assert_eq!(table.column_index("Color"), None);
    let first = Column::from_ast(&stmt.cols().unwrap()[0]);
    assert_eq!(first, Column { name: "id".to_string(), is_primary_key: true });
}

#[test]
fn primary_key_of_a_table() {
    let make = |flags: &[bool]| TableSchema {
        name: "t".to_string(),
        columns: flags
            .iter()
            .enumerate()
            .map(|(i, f)| Column { name: format!("c{}", i), is_primary_key: *f })
            .collect(),
    };
    assert_eq!(make(&[]).primary_key_index(), Ok(None));
    assert_eq!(make(&[false, false]).primary_key_index(), Ok(None));
    assert_eq!(make(&[false, false, true]).primary_key_index(), Ok(Some(2)));
    assert_eq!(make(&[true, false, true]).primary_key_index(), Err(Error::Schema));
    assert_eq!(make(&[true, true]).primary_key_index(), Err(Error::Schema));
}

#[test]
fn table_as_select_has_no_columns() {
    let stmt = match parse("CREATE TABLE t AS SELECT a FROM u") {
        Ok(Statement::CreateTable(stmt)) => stmt,
        other => panic!("{:?}", other),
    };
    assert!(matches!(stmt.cols(), Err(Error::Unsupported)));
    assert_eq!(TableSchema::from_ast(&stmt), Err(Error::Unsupported));
}

#[test]
fn index_schema_of_a_statement() {
    let stmt = match parse("CREATE INDEX idx_color ON apples(color, name)") {
        Ok(Statement::CreateIndex { stmt, .. }) => stmt,
        other => panic!("{:?}", other),
    };
    assert_eq!(
        IndexSchema::from_ast(&stmt),
        IndexSchema {
            name: "idx_color".to_string(),
            table_name: "apples".to_string(),
            columns: vec!["color".to_string(), "name".to_string()],
        }
    );
}

#[test]
fn copies_of_columns_are_equal() {
    let stmt = match parse("CREATE TABLE t (a int primary key, b foreign key (x) references u)") {
        Ok(Statement::CreateTable(stmt)) => stmt,
        other => panic!("{:?}", other),
    };
    let columns = stmt.cols().unwrap();
    for c in &columns {
        assert_eq!(&c.duplicate(), c);
        for k in &c.constraints {
            assert_eq!(&k.duplicate(), k);
        }
    }
    assert!(columns[0].constraints[0].is_primary_key());
    assert!(!columns[1].constraints[0].is_primary_key());
}

#[test]
fn characters_and_numerals() {
    assert_eq!(to_chars("añ漢"), vec!['a', 'ñ', '漢']);
    assert_eq!(to_chars(""), Vec::<char>::new());
    assert_eq!(string_of(&['a', 'b', 'c', 'd'], 1, 3), "bc");
    assert_eq!(string_of(&['a'], 1, 1), "");
    assert_eq!(decimal_string(0), "0");
    assert_eq!(decimal_string(7), "7");
    assert_eq!(decimal_string(10), "10");
    assert_eq!(decimal_string(4096), "4096");
    assert_eq!(decimal_string(u64::MAX), "18446744073709551615");
}
