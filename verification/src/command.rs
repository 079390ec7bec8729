//! Commands: what a command asks for, and the lines that answer it.

use crate::btree::{count_rows, spec_count, MAX_DEPTH};
use crate::chars::{decimal, decimal_string, raised, string_of, to_chars, to_upper};
use crate::error::{yields, Error};
use crate::page_io::{spec_load_page, spec_page_size, DbHeader, Page};
use crate::query::{execute_select, find_element, find_table, spec_select};
use crate::schema::{spec_schema, ElementView, SqliteSchema};
use crate::syntax::statement::{Statement, StatementView};
use crate::syntax::{parse, spec_parse};
use crate::text::text_equal;
use vstd::prelude::*;
use vstd::string::StringExecFns;

verus! {

/// What a command asks for.
#[derive(Debug, PartialEq)]
pub enum Command {
    /// `.dbinfo`: the page size and the number of schema elements.
    DbInfo,
    /// `.tables`: the names of the schema elements.
    Tables,
    /// `.tokenize`: the tokens of a text.
    Tokenize,
    /// `.parse`: the statement of a text.
    Parse,
    /// `SELECT COUNT(*) FROM` and a table: the number of its rows.
    Count(String),
    /// Any other `SELECT`: rows.
    Select,
    /// Anything else.
    Unknown,
}

/// What a [`Command`] stands for.
pub enum CommandView {
    DbInfo,
    Tables,
    Tokenize,
    Parse,
    Count(Seq<char>),
    Select,
    Unknown,
}

impl DeepView for Command {
    type V = CommandView;

    open spec fn deep_view(&self) -> CommandView {
        match self {
            Command::DbInfo => CommandView::DbInfo,
            Command::Tables => CommandView::Tables,
            Command::Tokenize => CommandView::Tokenize,
            Command::Parse => CommandView::Parse,
            Command::Count(table) => CommandView::Count(table@),
            Command::Select => CommandView::Select,
            Command::Unknown => CommandView::Unknown,
        }
    }
}

/// Whether `s` begins with `prefix`.
pub open spec fn starts_with(s: Seq<char>, prefix: Seq<char>) -> bool {
    prefix.len() <= s.len() && s.take(prefix.len() as int) == prefix
}

/// The place in the first `n` characters behind the last space; 0 where
/// there is no space.
pub open spec fn word_start(s: Seq<char>, n: nat) -> nat
    decreases n,
{
    if n == 0 {
        0
    } else if s[n - 1] == ' ' {
        n
    } else {
        word_start(s, (n - 1) as nat)
    }
}

/// What stands behind the last space of `s`.
pub open spec fn last_word(s: Seq<char>) -> Seq<char> {
    s.subrange(word_start(s, s.len()) as int, s.len() as int)
}

/// What the command asks for. The two kinds of `SELECT` are known by their
/// beginning, whatever its case; the table to count is the last word.
pub open spec fn spec_classify_command(command: Seq<char>) -> CommandView {
    if command == ".dbinfo"@ {
        CommandView::DbInfo
    } else if command == ".tables"@ {
        CommandView::Tables
    } else if command == ".tokenize"@ {
        CommandView::Tokenize
    } else if command == ".parse"@ {
        CommandView::Parse
    } else if starts_with(raised(command), "SELECT COUNT(*) FROM"@) {
        CommandView::Count(last_word(command))
    } else if starts_with(raised(command), "SELECT"@) {
        CommandView::Select
    } else {
        CommandView::Unknown
    }
}

/// Whether `s` begins with `prefix`.
pub fn begins_with(s: &str, prefix: &str) -> (b: bool)
    ensures
        b == starts_with(s@, prefix@),
{
    let text = to_chars(s);
    let head = to_chars(prefix);
    if head.len() > text.len() {
        return false;
    }
    let mut i: usize = 0;
    while i < head.len()
        invariant
            i <= head.len() <= text.len(),
            text@ == s@,
            head@ == prefix@,
            forall|k: int| 0 <= k < i ==> text@[k] == head@[k],
        decreases head.len() - i,
    {
        if text[i] != head[i] {
            assert(s@.take(prefix@.len() as int)[i as int] != prefix@[i as int]);
            return false;
        }
        i += 1;
    }
    assert(s@.take(prefix@.len() as int) =~= prefix@);
    true
}

/// What stands behind the last space of `s`.
pub fn word_behind_last_space(s: &str) -> (word: String)
    ensures
        word@ == last_word(s@),
{
    let text = to_chars(s);
    let mut n: usize = text.len();
    while n > 0 && text[n - 1] != ' '
        invariant
            n <= text.len(),
            word_start(text@, text@.len()) == word_start(text@, n as nat),
        decreases n,
    {
        n -= 1;
    }
    string_of(text.as_slice(), n, text.len())
}

/// Says what the command asks for.
pub fn classify_command(command: &str) -> (r: Command)
    ensures
        r.deep_view() == spec_classify_command(command@),
{
    if text_equal(command, ".dbinfo") {
        Command::DbInfo
    } else if text_equal(command, ".tables") {
        Command::Tables
    } else if text_equal(command, ".tokenize") {
        Command::Tokenize
    } else if text_equal(command, ".parse") {
        Command::Parse
    } else {
        let upper = to_upper(command);
        if begins_with(upper.as_str(), "SELECT COUNT(*) FROM") {
            Command::Count(word_behind_last_space(command))
        } else if begins_with(upper.as_str(), "SELECT") {
            Command::Select
        } else {
            Command::Unknown
        }
    }
}

/// The two lines of `.dbinfo`.
pub open spec fn dbinfo_lines(page_size: u16, num_cells: u16) -> Seq<Seq<char>> {
    seq![
        "database page size: "@ + decimal(page_size as nat),
        "number of tables: "@ + decimal(num_cells as nat),
    ]
}

/// The names of the schema elements, one line each.
pub open spec fn table_lines(schema: Seq<ElementView>) -> Seq<Seq<char>> {
    Seq::new(schema.len(), |i: int| schema[i].name)
}

/// The schema of the file: that of its page 1.
pub open spec fn schema_of_file(file: Seq<u8>) -> Result<Seq<ElementView>, Error> {
    if file.len() < 100 {
        Err(Error::Io)
    } else {
        match spec_load_page(file, spec_page_size(file), 1) {
            Err(e) => Err(e),
            Ok(page) => spec_schema(file, spec_page_size(file), page),
        }
    }
}

/// The one line of a count: the number of rows of the table, which is the
/// first schema element of that name.
pub open spec fn count_lines(file: Seq<u8>, table: Seq<char>) -> Result<Seq<Seq<char>>, Error> {
    match schema_of_file(file) {
        Err(e) => Err(e),
        Ok(schema) => match find_element(schema, table, 0) {
            None => Err(Error::Schema),
            Some(at) => match spec_count(
                file,
                spec_page_size(file),
                schema[at].rootpage,
                MAX_DEPTH as nat,
            ) {
                Err(e) => Err(e),
                Ok(n) => if n <= u64::MAX {
                    Ok(seq![decimal(n)])
                } else {
                    Err(Error::Unsupported)
                },
            },
        },
    }
}

/// The lines of a `SELECT`: the command has to spell one.
pub open spec fn select_lines(file: Seq<u8>, command: Seq<char>) -> Result<Seq<Seq<char>>, Error> {
    match schema_of_file(file) {
        Err(e) => Err(e),
        Ok(schema) => match spec_parse(command) {
            Err(e) => Err(e),
            Ok(StatementView::Select(stmt)) => spec_select(file, spec_page_size(file), schema, stmt),
            Ok(_) => Err(Error::Unsupported),
        },
    }
}

/// The lines that answer the command on the database `file`. The commands
/// that take a text, not a database, are not answered here, and an unknown
/// command is a usage error.
pub open spec fn spec_run(file: Seq<u8>, command: Seq<char>) -> Result<Seq<Seq<char>>, Error> {
    match spec_classify_command(command) {
        CommandView::DbInfo => if file.len() < 100 {
            Err(Error::Io)
        } else {
            match spec_load_page(file, spec_page_size(file), 1) {
                Err(e) => Err(e),
                Ok(page) => Ok(dbinfo_lines(spec_page_size(file), page.header.num_cells)),
            }
        },
        CommandView::Tables => match schema_of_file(file) {
            Err(e) => Err(e),
            Ok(schema) => Ok(table_lines(schema)),
        },
        CommandView::Count(table) => count_lines(file, table),
        CommandView::Select => select_lines(file, command),
        CommandView::Tokenize => Err(Error::Unsupported),
        CommandView::Parse => Err(Error::Unsupported),
        CommandView::Unknown => Err(Error::Usage),
    }
}

/// Reads the schema of the file.
pub fn load_schema(file: &[u8]) -> (r: Result<(DbHeader, SqliteSchema), Error>)
    ensures
        match schema_of_file(file@) {
            Ok(schema) => r matches Ok((header, found)) && found.deep_view() == schema
                && header.page_size == spec_page_size(file@),
            Err(e) => r matches Err(f) && f == e,
        },
{
    let dbheader = match DbHeader::from_file(file) {
        Ok(dbheader) => dbheader,
        Err(e) => {
            return Err(e);
        },
    };
    let page = match Page::from_file(file, 1, &dbheader) {
        Ok(page) => page,
        Err(e) => {
            return Err(e);
        },
    };
    match SqliteSchema::from_page(file, &dbheader, &page) {
        Ok(schema) => Ok((dbheader, schema)),
        Err(e) => Err(e),
    }
}

/// The two lines of `.dbinfo`.
pub fn dbinfo(file: &[u8]) -> (r: Result<Vec<String>, Error>)
    ensures
        yields(
            r,
            if file@.len() < 100 {
                Err(Error::Io)
            } else {
                match spec_load_page(file@, spec_page_size(file@), 1) {
                    Err(e) => Err(e),
                    Ok(page) => Ok(dbinfo_lines(spec_page_size(file@), page.header.num_cells)),
                }
            },
        ),
{
    let dbheader = match DbHeader::from_file(file) {
        Ok(dbheader) => dbheader,
        Err(e) => {
            return Err(e);
        },
    };
    let page = match Page::from_file(file, 1, &dbheader) {
        Ok(page) => page,
        Err(e) => {
            return Err(e);
        },
    };
    let mut first = "database page size: ".to_owned();
    first.append(decimal_string(dbheader.page_size as u64).as_str());
    let mut second = "number of tables: ".to_owned();
    second.append(decimal_string(page.header().num_cells as u64).as_str());
    let mut lines: Vec<String> = Vec::new();
    lines.push(first);
    lines.push(second);
    assert(lines.deep_view() =~= dbinfo_lines(dbheader.page_size, page@.header.num_cells));
    Ok(lines)
}

/// The names of the schema elements, one line each.
pub fn tables(schema: &SqliteSchema) -> (lines: Vec<String>)
    ensures
        lines.deep_view() == table_lines(schema.deep_view()),
{
    let mut lines: Vec<String> = Vec::new();
    let mut i: usize = 0;
    while i < schema.schema_elements.len()
        invariant
            i <= schema.schema_elements.len(),
            lines@.len() == i,
            forall|k: int| 0 <= k < i ==> lines@[k]@ == schema.schema_elements@[k].name@,
        decreases schema.schema_elements.len() - i,
    {
        lines.push(schema.schema_elements[i].name.clone());
        i += 1;
    }
    assert(lines.deep_view() =~= table_lines(schema.deep_view()));
    lines
}

/// The one line of a count.
pub fn count(file: &[u8], table: &str) -> (r: Result<Vec<String>, Error>)
    ensures
        yields(r, count_lines(file@, table@)),
{
    let (dbheader, schema) = match load_schema(file) {
        Ok(found) => found,
        Err(e) => {
            return Err(e);
        },
    };
    let at = match find_table(&schema, table) {
        Some(at) => at,
        None => {
            return Err(Error::Schema);
        },
    };
    assert(schema.deep_view()[at as int] == schema.schema_elements@[at as int].deep_view());
    match count_rows(file, &dbheader, schema.schema_elements[at].rootpage) {
        Ok(n) => {
            let mut lines: Vec<String> = Vec::new();
            lines.push(decimal_string(n));
            assert(lines.deep_view() =~= seq![decimal(n as nat)]);
            Ok(lines)
        },
        Err(e) => Err(e),
    }
}

/// The lines of a `SELECT`.
pub fn select(file: &[u8], command: &str) -> (r: Result<Vec<String>, Error>)
    ensures
        yields(r, select_lines(file@, command@)),
{
    let (dbheader, schema) = match load_schema(file) {
        Ok(found) => found,
        Err(e) => {
            return Err(e);
        },
    };
    match parse(command) {
        Ok(Statement::Select(stmt)) => execute_select(file, &dbheader, &schema, &stmt),
        Ok(_) => Err(Error::Unsupported),
        Err(e) => Err(e),
    }
}

/// Answers the command on the database `file`: the lines to print.
pub fn run(file: &[u8], command: &str) -> (r: Result<Vec<String>, Error>)
    ensures
        yields(r, spec_run(file@, command@)),
{
    match classify_command(command) {
        Command::DbInfo => dbinfo(file),
        Command::Tables => match load_schema(file) {
            Ok((_, schema)) => Ok(tables(&schema)),
            Err(e) => Err(e),
        },
        Command::Count(table) => count(file, table.as_str()),
        Command::Select => select(file, command),
        Command::Tokenize => Err(Error::Unsupported),
        Command::Parse => Err(Error::Unsupported),
        Command::Unknown => Err(Error::Usage),
    }
}

} // verus!
