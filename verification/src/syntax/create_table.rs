//! `CREATE TABLE` statements: the table's name and its columns with their
//! constraints.

use super::select::{SelectStmt, SelectView};
use super::tokenizer::{Lexeme, Token};
use super::{
    at_operator, at_word, identifier, identifier_at, operator_at, parses, token_at, word_at, Parse,
};
use crate::error::Error;
use vstd::prelude::*;

verus! {

/// A `CREATE TABLE` statement.
#[derive(Debug, PartialEq)]
pub struct CreateTableStmt {
    pub temp: bool,
    pub if_not_exists: bool,
    pub schema_name: Option<String>,
    pub table_name: String,
    pub schema_constructor: SchemaConstructor,
}

/// How the statement says what the table holds.
#[derive(Debug, PartialEq)]
pub enum SchemaConstructor {
    FromColumns { columns: Vec<ColumnDef>, table_constraints: Vec<TableConstraint> },
    AsSelect(SelectStmt),
}

/// One column of a table.
#[derive(Debug, PartialEq)]
pub struct ColumnDef {
    pub name: String,
    pub declared_type: Option<String>,
    pub constraints: Vec<ColumnConstraint>,
}

/// One constraint on a column.
#[derive(Debug, PartialEq)]
pub enum ColumnConstraint {
    Name(Option<String>),
    PrimaryKey { ord_: Option<SortOrder>, conflict_clause: Option<ConflictClause>, autoincrement: bool },
    NotNull { conflict_clause: Option<ConflictClause> },
    Unique,
    Check,
    Default,
    Collate,
    ForeignKey(ForeignKeyClause),
}

/// The order of a primary key.
#[derive(Debug, Clone, Copy, PartialEq, Eq, Structural)]
pub enum SortOrder {
    Asc,
    Desc,
}

/// What is to happen where a constraint is broken.
#[derive(Debug, Clone, Copy, PartialEq, Eq, Structural)]
pub enum ConflictClause {
    Rollback,
    Abort,
    Fail,
    Ignore,
    Replace,
}

/// A foreign key.
#[derive(Debug, PartialEq)]
pub struct ForeignKeyClause {
    pub foreign_table: ForeignKeyTable,
}

/// The table that a foreign key refers to, and the columns of the key.
#[derive(Debug, PartialEq)]
pub struct ForeignKeyTable {
    pub schema_name: Option<String>,
    pub table_name: String,
    pub column_names: Vec<String>,
}

/// A constraint on a table. None is read so far.
#[derive(Debug, Clone, Copy, PartialEq, Eq, Structural)]
pub struct TableConstraint;

/// What a [`ForeignKeyClause`] stands for.
pub struct ForeignKeyView {
    pub schema_name: Option<Seq<char>>,
    pub table_name: Seq<char>,
    pub column_names: Seq<Seq<char>>,
}

/// What a [`ColumnConstraint`] stands for.
pub enum ConstraintView {
    Name(Option<Seq<char>>),
    PrimaryKey { ord_: Option<SortOrder>, conflict_clause: Option<ConflictClause>, autoincrement: bool },
    NotNull { conflict_clause: Option<ConflictClause> },
    Unique,
    Check,
    Default,
    Collate,
    ForeignKey(ForeignKeyView),
}

/// What a [`ColumnDef`] stands for.
pub struct ColumnDefView {
    pub name: Seq<char>,
    pub declared_type: Option<Seq<char>>,
    pub constraints: Seq<ConstraintView>,
}

/// What a [`SchemaConstructor`] stands for.
pub enum SchemaView {
    FromColumns { columns: Seq<ColumnDefView>, table_constraints: Seq<TableConstraint> },
    AsSelect(SelectView),
}

/// What a [`CreateTableStmt`] stands for.
pub struct CreateTableView {
    pub temp: bool,
    pub if_not_exists: bool,
    pub schema_name: Option<Seq<char>>,
    pub table_name: Seq<char>,
    pub schema_constructor: SchemaView,
}

impl ConstraintView {
    /// Whether this constraint makes the column a primary key.
    pub open spec fn is_primary_key(self) -> bool {
        self is PrimaryKey
    }
}

impl DeepView for ForeignKeyTable {
    type V = ForeignKeyView;

    open spec fn deep_view(&self) -> ForeignKeyView {
        ForeignKeyView {
            schema_name: self.schema_name.deep_view(),
            table_name: self.table_name@,
            column_names: self.column_names.deep_view(),
        }
    }
}

impl DeepView for ForeignKeyClause {
    type V = ForeignKeyView;

    open spec fn deep_view(&self) -> ForeignKeyView {
        self.foreign_table.deep_view()
    }
}

impl DeepView for ColumnConstraint {
    type V = ConstraintView;

    open spec fn deep_view(&self) -> ConstraintView {
        match self {
            ColumnConstraint::Name(name) => ConstraintView::Name(name.deep_view()),
            ColumnConstraint::PrimaryKey { ord_, conflict_clause, autoincrement } => {
                ConstraintView::PrimaryKey {
                    ord_: *ord_,
                    conflict_clause: *conflict_clause,
                    autoincrement: *autoincrement,
                }
            },
            ColumnConstraint::NotNull { conflict_clause } => ConstraintView::NotNull {
                conflict_clause: *conflict_clause,
            },
            ColumnConstraint::Unique => ConstraintView::Unique,
            ColumnConstraint::Check => ConstraintView::Check,
            ColumnConstraint::Default => ConstraintView::Default,
            ColumnConstraint::Collate => ConstraintView::Collate,
            ColumnConstraint::ForeignKey(key) => ConstraintView::ForeignKey(key.deep_view()),
        }
    }
}

impl DeepView for ColumnDef {
    type V = ColumnDefView;

    open spec fn deep_view(&self) -> ColumnDefView {
        ColumnDefView {
            name: self.name@,
            declared_type: self.declared_type.deep_view(),
            constraints: self.constraints.deep_view(),
        }
    }
}

impl DeepView for TableConstraint {
    type V = TableConstraint;

    open spec fn deep_view(&self) -> TableConstraint {
        *self
    }
}

impl DeepView for SchemaConstructor {
    type V = SchemaView;

    open spec fn deep_view(&self) -> SchemaView {
        match self {
            SchemaConstructor::FromColumns { columns, table_constraints } => {
                SchemaView::FromColumns {
                    columns: columns.deep_view(),
                    table_constraints: table_constraints.deep_view(),
                }
            },
            SchemaConstructor::AsSelect(select) => SchemaView::AsSelect(select.deep_view()),
        }
    }
}

impl DeepView for CreateTableStmt {
    type V = CreateTableView;

    open spec fn deep_view(&self) -> CreateTableView {
        CreateTableView {
            temp: self.temp,
            if_not_exists: self.if_not_exists,
            schema_name: self.schema_name.deep_view(),
            table_name: self.table_name@,
            schema_constructor: self.schema_constructor.deep_view(),
        }
    }
}

impl CreateTableView {
    /// The columns of the table, where the statement lists them.
    pub open spec fn cols(self) -> Result<Seq<ColumnDefView>, Error> {
        match self.schema_constructor {
            SchemaView::FromColumns { columns, .. } => Ok(columns),
            SchemaView::AsSelect(_) => Err(Error::Unsupported),
        }
    }
}

/// A copy of a list of names.
pub fn duplicate_names(names: &Vec<String>) -> (r: Vec<String>)
    ensures
        r.deep_view() == names.deep_view(),
{
    let mut copy: Vec<String> = Vec::new();
    let mut i: usize = 0;
    while i < names.len()
        invariant
            i <= names.len(),
            copy@.len() == i,
            forall|k: int| 0 <= k < i ==> copy@[k]@ == names@[k]@,
        decreases names.len() - i,
    {
        copy.push(names[i].clone());
        i += 1;
    }
    assert(copy.deep_view() =~= names.deep_view());
    copy
}

/// A copy of a name that may be missing.
pub fn duplicate_name(name: &Option<String>) -> (r: Option<String>)
    ensures
        r.deep_view() == name.deep_view(),
{
    match name {
        Some(name) => Some(name.clone()),
        None => None,
    }
}

impl ColumnConstraint {
    /// Whether this constraint makes the column a primary key.
    pub fn is_primary_key(&self) -> (b: bool)
        ensures
            b == self.deep_view().is_primary_key(),
    {
        match self {
            ColumnConstraint::PrimaryKey { .. } => true,
            _ => false,
        }
    }

    /// A copy of this constraint.
    pub fn duplicate(&self) -> (r: ColumnConstraint)
        ensures
            r.deep_view() == self.deep_view(),
    {
        match self {
            ColumnConstraint::Name(name) => ColumnConstraint::Name(duplicate_name(name)),
            ColumnConstraint::PrimaryKey { ord_, conflict_clause, autoincrement } => {
                ColumnConstraint::PrimaryKey {
                    ord_: *ord_,
                    conflict_clause: *conflict_clause,
                    autoincrement: *autoincrement,
                }
            },
            ColumnConstraint::NotNull { conflict_clause } => ColumnConstraint::NotNull {
                conflict_clause: *conflict_clause,
            },
            ColumnConstraint::Unique => ColumnConstraint::Unique,
            ColumnConstraint::Check => ColumnConstraint::Check,
            ColumnConstraint::Default => ColumnConstraint::Default,
            ColumnConstraint::Collate => ColumnConstraint::Collate,
            ColumnConstraint::ForeignKey(key) => ColumnConstraint::ForeignKey(
                ForeignKeyClause {
                    foreign_table: ForeignKeyTable {
                        schema_name: duplicate_name(&key.foreign_table.schema_name),
                        table_name: key.foreign_table.table_name.clone(),
                        column_names: duplicate_names(&key.foreign_table.column_names),
                    },
                },
            ),
        }
    }
}

impl ColumnDef {
    /// A copy of this column.
    pub fn duplicate(&self) -> (r: ColumnDef)
        ensures
            r.deep_view() == self.deep_view(),
    {
        let mut constraints: Vec<ColumnConstraint> = Vec::new();
        let mut i: usize = 0;
        while i < self.constraints.len()
            invariant
                i <= self.constraints.len(),
                constraints@.len() == i,
                forall|k: int|
                    0 <= k < i ==> constraints@[k].deep_view() == self.constraints@[k].deep_view(),
            decreases self.constraints.len() - i,
        {
            constraints.push(self.constraints[i].duplicate());
            i += 1;
        }
        assert(constraints.deep_view() =~= self.constraints.deep_view());
        ColumnDef {
            name: self.name.clone(),
            declared_type: duplicate_name(&self.declared_type),
            constraints,
        }
    }
}

impl CreateTableStmt {
    /// The columns of the table: none where the statement takes them from a
    /// `SELECT`.
    pub fn cols(&self) -> (r: Result<Vec<ColumnDef>, Error>)
        ensures
            crate::error::yields(r, self.deep_view().cols()),
    {
        match &self.schema_constructor {
            SchemaConstructor::FromColumns { columns, .. } => {
                let mut copy: Vec<ColumnDef> = Vec::new();
                let mut i: usize = 0;
                while i < columns.len()
                    invariant
                        i <= columns.len(),
                        copy@.len() == i,
                        forall|k: int|
                            0 <= k < i ==> copy@[k].deep_view() == columns@[k].deep_view(),
                    decreases columns.len() - i,
                {
                    copy.push(columns[i].duplicate());
                    i += 1;
                }
                assert(copy.deep_view() =~= columns.deep_view());
                Ok(copy)
            },
            SchemaConstructor::AsSelect(_) => Err(Error::Unsupported),
        }
    }
}

/// The conflict clause that the keyword at place `pos` names.
pub open spec fn conflict_clause(tokens: Seq<Lexeme>, pos: int) -> Option<ConflictClause> {
    if word_at(tokens, pos, Token::Rollback) {
        Some(ConflictClause::Rollback)
    } else if word_at(tokens, pos, Token::Abort) {
        Some(ConflictClause::Abort)
    } else if word_at(tokens, pos, Token::Fail) {
        Some(ConflictClause::Fail)
    } else if word_at(tokens, pos, Token::Ignore) {
        Some(ConflictClause::Ignore)
    } else if word_at(tokens, pos, Token::Replace) {
        Some(ConflictClause::Replace)
    } else {
        None
    }
}

/// An `ON CONFLICT` with its clause at place `pos`, or nothing.
pub open spec fn on_conflict(tokens: Seq<Lexeme>, pos: int) -> Result<
    (Option<ConflictClause>, int),
    Error,
> {
    if word_at(tokens, pos, Token::On) {
        if word_at(tokens, pos + 1, Token::Conflict) {
            match conflict_clause(tokens, pos + 2) {
                Some(clause) => Ok((Some(clause), pos + 3)),
                None => Err(Error::Unsupported),
            }
        } else {
            Err(Error::Unsupported)
        }
    } else {
        Ok((None, pos))
    }
}

/// The names of a foreign key's columns from place `pos` on, up to and with
/// the closing bracket.
pub open spec fn key_columns(tokens: Seq<Lexeme>, pos: int) -> Result<(Seq<Seq<char>>, int), Error>
    decreases tokens.len() - pos,
{
    if operator_at(tokens, pos, ")"@) {
        Ok((Seq::empty(), pos + 1))
    } else if operator_at(tokens, pos, ","@) {
        key_columns(tokens, pos + 1)
    } else {
        match identifier_at(tokens, pos) {
            Some(name) => match key_columns(tokens, pos + 1) {
                Ok((rest, next)) => Ok((seq![name] + rest, next)),
                Err(e) => Err(e),
            },
            None => Err(Error::Unsupported),
        }
    }
}

/// A foreign key from place `pos` on: the columns in brackets, `REFERENCES`
/// and the table.
pub open spec fn foreign_key(tokens: Seq<Lexeme>, pos: int) -> Result<(ForeignKeyView, int), Error> {
    if !operator_at(tokens, pos, "("@) {
        Err(Error::Unsupported)
    } else {
        match key_columns(tokens, pos + 1) {
            Err(e) => Err(e),
            Ok((column_names, at)) => if !word_at(tokens, at, Token::References) {
                Err(Error::Unsupported)
            } else {
                match identifier_at(tokens, at + 1) {
                    None => Err(Error::Unsupported),
                    Some(table_name) => Ok(
                        (ForeignKeyView { schema_name: None, table_name, column_names }, at + 2),
                    ),
                }
            },
        }
    }
}

/// The sort order at place `pos`, if one stands there.
pub open spec fn sort_order(tokens: Seq<Lexeme>, pos: int) -> Option<SortOrder> {
    if word_at(tokens, pos, Token::Asc) {
        Some(SortOrder::Asc)
    } else if word_at(tokens, pos, Token::Desc) {
        Some(SortOrder::Desc)
    } else {
        None
    }
}

/// A `PRIMARY KEY` from the place behind `PRIMARY` on.
pub open spec fn primary_key(tokens: Seq<Lexeme>, pos: int) -> Result<(ConstraintView, int), Error> {
    if !word_at(tokens, pos, Token::Key) {
        Err(Error::Unsupported)
    } else {
        let ord_ = sort_order(tokens, pos + 1);
        let at = if ord_ is Some {
            pos + 2
        } else {
            pos + 1
        };
        match on_conflict(tokens, at) {
            Err(e) => Err(e),
            Ok((conflict_clause, next)) => if word_at(tokens, next, Token::Autoincrement) {
                Ok(
                    (
                        ConstraintView::PrimaryKey { ord_, conflict_clause, autoincrement: true },
                        next + 1,
                    ),
                )
            } else {
                Ok(
                    (
                        ConstraintView::PrimaryKey { ord_, conflict_clause, autoincrement: false },
                        next,
                    ),
                )
            },
        }
    }
}

/// The constraints of a column from place `pos` on, up to and with the comma
/// or the closing bracket that ends the column.
pub open spec fn column_constraints(tokens: Seq<Lexeme>, pos: int) -> Result<
    (Seq<ConstraintView>, int),
    Error,
>
    decreases tokens.len() - pos,
{
    if operator_at(tokens, pos, ","@) || operator_at(tokens, pos, ")"@) {
        Ok((Seq::empty(), pos + 1))
    } else {
        match ColumnConstraint::parsed(tokens, pos) {
            Err(e) => Err(e),
            Ok((constraint, next)) => if next <= pos || next > tokens.len() {
                Err(Error::Unsupported)
            } else {
                match column_constraints(tokens, next) {
                    Ok((rest, end)) => Ok((seq![constraint] + rest, end)),
                    Err(e) => Err(e),
                }
            },
        }
    }
}

/// The columns of a table from place `pos` on: each begins with an
/// identifier; the list ends with the tokens or with a semicolon.
pub open spec fn table_columns(tokens: Seq<Lexeme>, pos: int) -> Result<
    (Seq<ColumnDefView>, int),
    Error,
>
    decreases tokens.len() - pos,
{
    if token_at(tokens, pos) is None {
        Ok((Seq::empty(), pos))
    } else if operator_at(tokens, pos, ";"@) {
        Ok((Seq::empty(), pos + 1))
    } else if identifier_at(tokens, pos) is Some {
        match ColumnDef::parsed(tokens, pos) {
            Err(e) => Err(e),
            Ok((column, next)) => if next <= pos || next > tokens.len() {
                Err(Error::Unsupported)
            } else {
                match table_columns(tokens, next) {
                    Ok((rest, end)) => Ok((seq![column] + rest, end)),
                    Err(e) => Err(e),
                }
            },
        }
    } else {
        Err(Error::Unsupported)
    }
}

impl Parse for ColumnConstraint {
    /// `PRIMARY KEY` with its order, conflict clause and `AUTOINCREMENT`;
    /// `NOT NULL` with its conflict clause; `UNIQUE`, `CHECK`, `DEFAULT` and
    /// `COLLATE` as bare keywords; `FOREIGN KEY` with its columns and table.
    open spec fn parsed(tokens: Seq<Lexeme>, pos: int) -> Result<(ConstraintView, int), Error> {
        if word_at(tokens, pos, Token::Primary) {
            primary_key(tokens, pos + 1)
        } else if word_at(tokens, pos, Token::Not) {
            if !word_at(tokens, pos + 1, Token::Null) {
                Err(Error::Unsupported)
            } else {
                match on_conflict(tokens, pos + 2) {
                    Err(e) => Err(e),
                    Ok((conflict_clause, next)) => Ok(
                        (ConstraintView::NotNull { conflict_clause }, next),
                    ),
                }
            }
        } else if word_at(tokens, pos, Token::Unique) {
            Ok((ConstraintView::Unique, pos + 1))
        } else if word_at(tokens, pos, Token::Check) {
            Ok((ConstraintView::Check, pos + 1))
        } else if word_at(tokens, pos, Token::Default) {
            Ok((ConstraintView::Default, pos + 1))
        } else if word_at(tokens, pos, Token::Collate) {
            Ok((ConstraintView::Collate, pos + 1))
        } else if word_at(tokens, pos, Token::Foreign) {
            if !word_at(tokens, pos + 1, Token::Key) {
                Err(Error::Unsupported)
            } else {
                match foreign_key(tokens, pos + 2) {
                    Err(e) => Err(e),
                    Ok((key, next)) => Ok((ConstraintView::ForeignKey(key), next)),
                }
            }
        } else {
            Err(Error::Unsupported)
        }
    }

    fn parse(tokens: &[Token], pos: usize) -> (r: Result<(Self, usize), Error>) {
        if at_word(tokens, pos, &Token::Primary) {
            parse_primary_key(tokens, pos + 1)
        } else if at_word(tokens, pos, &Token::Not) {
            if !at_word(tokens, pos + 1, &Token::Null) {
                return Err(Error::Unsupported);
            }
            match parse_on_conflict(tokens, pos + 2) {
                Ok((conflict_clause, next)) => Ok(
                    (ColumnConstraint::NotNull { conflict_clause }, next),
                ),
                Err(e) => Err(e),
            }
        } else if at_word(tokens, pos, &Token::Unique) {
            Ok((ColumnConstraint::Unique, pos + 1))
        } else if at_word(tokens, pos, &Token::Check) {
            Ok((ColumnConstraint::Check, pos + 1))
        } else if at_word(tokens, pos, &Token::Default) {
            Ok((ColumnConstraint::Default, pos + 1))
        } else if at_word(tokens, pos, &Token::Collate) {
            Ok((ColumnConstraint::Collate, pos + 1))
        } else if at_word(tokens, pos, &Token::Foreign) {
            if !at_word(tokens, pos + 1, &Token::Key) {
                return Err(Error::Unsupported);
            }
            match ForeignKeyClause::parse(tokens, pos + 2) {
                Ok((key, next)) => Ok((ColumnConstraint::ForeignKey(key), next)),
                Err(e) => Err(e),
            }
        } else {
            Err(Error::Unsupported)
        }
    }
}

fn parse_conflict_clause(tokens: &[Token], pos: usize) -> (r: Option<ConflictClause>)
    ensures
        r == conflict_clause(tokens.deep_view(), pos as int),
        r is Some ==> pos < tokens.len(),
{
    if at_word(tokens, pos, &Token::Rollback) {
        Some(ConflictClause::Rollback)
    } else if at_word(tokens, pos, &Token::Abort) {
        Some(ConflictClause::Abort)
    } else if at_word(tokens, pos, &Token::Fail) {
        Some(ConflictClause::Fail)
    } else if at_word(tokens, pos, &Token::Ignore) {
        Some(ConflictClause::Ignore)
    } else if at_word(tokens, pos, &Token::Replace) {
        Some(ConflictClause::Replace)
    } else {
        None
    }
}

fn parse_on_conflict(tokens: &[Token], pos: usize) -> (r: Result<
    (Option<ConflictClause>, usize),
    Error,
>)
    requires
        pos <= tokens@.len(),
    ensures
        match on_conflict(tokens.deep_view(), pos as int) {
            Ok((clause, next)) => r matches Ok((c, n)) && c == clause && n == next,
            Err(e) => r matches Err(f) && f == e,
        },
        r matches Ok((_, next)) ==> pos <= next <= tokens@.len(),
{
    if at_word(tokens, pos, &Token::On) {
        if at_word(tokens, pos + 1, &Token::Conflict) {
            match parse_conflict_clause(tokens, pos + 2) {
                Some(clause) => Ok((Some(clause), pos + 3)),
                None => Err(Error::Unsupported),
            }
        } else {
            Err(Error::Unsupported)
        }
    } else {
        Ok((None, pos))
    }
}

fn parse_sort_order(tokens: &[Token], pos: usize) -> (r: Option<SortOrder>)
    ensures
        r == sort_order(tokens.deep_view(), pos as int),
        r is Some ==> pos < tokens.len(),
{
    if at_word(tokens, pos, &Token::Asc) {
        Some(SortOrder::Asc)
    } else if at_word(tokens, pos, &Token::Desc) {
        Some(SortOrder::Desc)
    } else {
        None
    }
}

fn parse_primary_key(tokens: &[Token], pos: usize) -> (r: Result<(ColumnConstraint, usize), Error>)
    requires
        pos <= tokens@.len(),
    ensures
        parses(r, primary_key(tokens.deep_view(), pos as int)),
        r matches Ok((_, next)) ==> pos <= next <= tokens@.len(),
{
    if !at_word(tokens, pos, &Token::Key) {
        return Err(Error::Unsupported);
    }
    let ord_ = parse_sort_order(tokens, pos + 1);
    let at = if ord_.is_some() {
        pos + 2
    } else {
        pos + 1
    };
    let (conflict_clause, next) = match parse_on_conflict(tokens, at) {
        Ok(found) => found,
        Err(e) => {
            return Err(e);
        },
    };
    if at_word(tokens, next, &Token::Autoincrement) {
        Ok((ColumnConstraint::PrimaryKey { ord_, conflict_clause, autoincrement: true }, next + 1))
    } else {
        Ok((ColumnConstraint::PrimaryKey { ord_, conflict_clause, autoincrement: false }, next))
    }
}

fn parse_key_columns(tokens: &[Token], pos: usize) -> (r: Result<(Vec<String>, usize), Error>)
    requires
        pos <= tokens@.len(),
    ensures
        parses(r, key_columns(tokens.deep_view(), pos as int)),
        r matches Ok((_, next)) ==> pos <= next <= tokens@.len(),
{
    let mut columns: Vec<String> = Vec::new();
    let mut at = pos;
    let ghost all = tokens.deep_view();
    assert(columns.deep_view() =~= Seq::<Seq<char>>::empty());
    loop
        invariant
            pos <= at <= tokens.len(),
            all == tokens.deep_view(),
            key_columns(all, pos as int) == match key_columns(all, at as int) {
                Ok((rest, next)) => Ok::<(Seq<Seq<char>>, int), Error>(
                    (columns.deep_view() + rest, next),
                ),
                Err(e) => Err::<(Seq<Seq<char>>, int), Error>(e),
            },
        decreases tokens@.len() - at,
    {
        if at_operator(tokens, at, ")") {
            assert(columns.deep_view() + Seq::<Seq<char>>::empty() =~= columns.deep_view());
            return Ok((columns, at + 1));
        } else if at_operator(tokens, at, ",") {
            at += 1;
        } else {
            match identifier(tokens, at) {
                Some(name) => {
                    let ghost before = columns.deep_view();
                    proof {
                        if let Ok((rest, _)) = key_columns(all, at + 1) {
                            assert(before + (seq![name@] + rest) =~= before.push(name@) + rest);
                        }
                    }
                    columns.push(name);
                    assert(columns.deep_view() =~= before.push(name@));
                    at += 1;
                },
                None => {
                    return Err(Error::Unsupported);
                },
            }
        }
    }
}

impl Parse for ForeignKeyClause {
    open spec fn parsed(tokens: Seq<Lexeme>, pos: int) -> Result<(ForeignKeyView, int), Error> {
        foreign_key(tokens, pos)
    }

    fn parse(tokens: &[Token], pos: usize) -> (r: Result<(Self, usize), Error>) {
        assert(Self::parsed(tokens.deep_view(), pos as int) == foreign_key(
            tokens.deep_view(),
            pos as int,
        ));
        if !at_operator(tokens, pos, "(") {
            return Err(Error::Unsupported);
        }
        let (column_names, at) = match parse_key_columns(tokens, pos + 1) {
            Ok(found) => found,
            Err(e) => {
                return Err(e);
            },
        };
        if !at_word(tokens, at, &Token::References) {
            return Err(Error::Unsupported);
        }
        match identifier(tokens, at + 1) {
            Some(table_name) => Ok(
                (
                    ForeignKeyClause {
                        foreign_table: ForeignKeyTable {
                            schema_name: None,
                            table_name,
                            column_names,
                        },
                    },
                    at + 2,
                ),
            ),
            None => Err(Error::Unsupported),
        }
    }
}

fn parse_column_constraints(tokens: &[Token], pos: usize) -> (r: Result<
    (Vec<ColumnConstraint>, usize),
    Error,
>)
    requires
        pos <= tokens@.len(),
    ensures
        parses(r, column_constraints(tokens.deep_view(), pos as int)),
        r matches Ok((_, next)) ==> pos < next <= tokens@.len(),
{
    let mut constraints: Vec<ColumnConstraint> = Vec::new();
    let mut at = pos;
    let ghost all = tokens.deep_view();
    assert(constraints.deep_view() =~= Seq::<ConstraintView>::empty());
    loop
        invariant
            pos <= at <= tokens.len(),
            all == tokens.deep_view(),
            column_constraints(all, pos as int) == match column_constraints(all, at as int) {
                Ok((rest, next)) => Ok::<(Seq<ConstraintView>, int), Error>(
                    (constraints.deep_view() + rest, next),
                ),
                Err(e) => Err::<(Seq<ConstraintView>, int), Error>(e),
            },
        decreases tokens@.len() - at,
    {
        if at_operator(tokens, at, ",") || at_operator(tokens, at, ")") {
            assert(constraints.deep_view() + Seq::<ConstraintView>::empty()
                =~= constraints.deep_view());
            return Ok((constraints, at + 1));
        }
        let (constraint, next) = match ColumnConstraint::parse(tokens, at) {
            Ok(found) => found,
            Err(e) => {
                return Err(e);
            },
        };
        if next <= at {
            return Err(Error::Unsupported);
        }
        let ghost before = constraints.deep_view();
        let ghost view = constraint.deep_view();
        proof {
            if let Ok((rest, _)) = column_constraints(all, next as int) {
                assert(before + (seq![view] + rest) =~= before.push(view) + rest);
            }
        }
        constraints.push(constraint);
        assert(constraints.deep_view() =~= before.push(view));
        at = next;
    }
}

impl Parse for ColumnDef {
    /// The column's name, its type where an identifier follows, and its
    /// constraints up to the comma or bracket that ends the column.
    open spec fn parsed(tokens: Seq<Lexeme>, pos: int) -> Result<(ColumnDefView, int), Error> {
        match identifier_at(tokens, pos) {
            None => Err(Error::Unsupported),
            Some(name) => {
                let declared_type = identifier_at(tokens, pos + 1);
                let at = if declared_type is Some {
                    pos + 2
                } else {
                    pos + 1
                };
                match column_constraints(tokens, at) {
                    Err(e) => Err(e),
                    Ok((constraints, next)) => Ok(
                        (ColumnDefView { name, declared_type, constraints }, next),
                    ),
                }
            },
        }
    }

    fn parse(tokens: &[Token], pos: usize) -> (r: Result<(Self, usize), Error>) {
        let name = match identifier(tokens, pos) {
            Some(name) => name,
            None => {
                return Err(Error::Unsupported);
            },
        };
        let declared_type = identifier(tokens, pos + 1);
        let at = if declared_type.is_some() {
            pos + 2
        } else {
            pos + 1
        };
        match parse_column_constraints(tokens, at) {
            Ok((constraints, next)) => Ok((ColumnDef { name, declared_type, constraints }, next)),
            Err(e) => Err(e),
        }
    }
}

fn parse_table_columns(tokens: &[Token], pos: usize) -> (r: Result<(Vec<ColumnDef>, usize), Error>)
    requires
        pos <= tokens@.len(),
    ensures
        parses(r, table_columns(tokens.deep_view(), pos as int)),
        r matches Ok((_, next)) ==> pos <= next <= tokens@.len(),
{
    let mut columns: Vec<ColumnDef> = Vec::new();
    let mut at = pos;
    let ghost all = tokens.deep_view();
    assert(columns.deep_view() =~= Seq::<ColumnDefView>::empty());
    loop
        invariant
            pos <= at <= tokens.len(),
            all == tokens.deep_view(),
            table_columns(all, pos as int) == match table_columns(all, at as int) {
                Ok((rest, next)) => Ok::<(Seq<ColumnDefView>, int), Error>(
                    (columns.deep_view() + rest, next),
                ),
                Err(e) => Err::<(Seq<ColumnDefView>, int), Error>(e),
            },
        decreases tokens@.len() - at,
    {
        if at >= tokens.len() {
            assert(columns.deep_view() + Seq::<ColumnDefView>::empty() =~= columns.deep_view());
            return Ok((columns, at));
        }
        if at_operator(tokens, at, ";") {
            assert(columns.deep_view() + Seq::<ColumnDefView>::empty() =~= columns.deep_view());
            return Ok((columns, at + 1));
        }
        if identifier(tokens, at).is_none() {
            return Err(Error::Unsupported);
        }
        let (column, next) = match ColumnDef::parse(tokens, at) {
            Ok(found) => found,
            Err(e) => {
                return Err(e);
            },
        };
        if next <= at {
            return Err(Error::Unsupported);
        }
        let ghost before = columns.deep_view();
        let ghost view = column.deep_view();
        proof {
            if let Ok((rest, _)) = table_columns(all, next as int) {
                assert(before + (seq![view] + rest) =~= before.push(view) + rest);
            }
        }
        columns.push(column);
        assert(columns.deep_view() =~= before.push(view));
        at = next;
    }
}

impl Parse for SchemaConstructor {
    /// A list of columns in brackets, or `AS SELECT` with its statement.
    open spec fn parsed(tokens: Seq<Lexeme>, pos: int) -> Result<(SchemaView, int), Error> {
        if operator_at(tokens, pos, "("@) {
            match table_columns(tokens, pos + 1) {
                Err(e) => Err(e),
                Ok((columns, next)) => Ok(
                    (SchemaView::FromColumns { columns, table_constraints: Seq::empty() }, next),
                ),
            }
        } else if word_at(tokens, pos, Token::As) {
            if !word_at(tokens, pos + 1, Token::Select) {
                Err(Error::Unsupported)
            } else {
                match SelectStmt::parsed(tokens, pos + 2) {
                    Err(e) => Err(e),
                    Ok((select, next)) => Ok((SchemaView::AsSelect(select), next)),
                }
            }
        } else {
            Err(Error::Unsupported)
        }
    }

    fn parse(tokens: &[Token], pos: usize) -> (r: Result<(Self, usize), Error>) {
        if at_operator(tokens, pos, "(") {
            match parse_table_columns(tokens, pos + 1) {
                Ok((columns, next)) => {
                    let table_constraints: Vec<TableConstraint> = Vec::new();
                    assert(table_constraints.deep_view() =~= Seq::<TableConstraint>::empty());
                    Ok((SchemaConstructor::FromColumns { columns, table_constraints }, next))
                },
                Err(e) => Err(e),
            }
        } else if at_word(tokens, pos, &Token::As) {
            if !at_word(tokens, pos + 1, &Token::Select) {
                return Err(Error::Unsupported);
            }
            match SelectStmt::parse(tokens, pos + 2) {
                Ok((select, next)) => Ok((SchemaConstructor::AsSelect(select), next)),
                Err(e) => Err(e),
            }
        } else {
            Err(Error::Unsupported)
        }
    }
}

/// An `IF NOT EXISTS` at place `pos`, or nothing: whether it stands there,
/// and the place behind it.
pub open spec fn if_not_exists(tokens: Seq<Lexeme>, pos: int) -> Result<(bool, int), Error> {
    if word_at(tokens, pos, Token::If) {
        if word_at(tokens, pos + 1, Token::Not) && word_at(tokens, pos + 2, Token::Exists) {
            Ok((true, pos + 3))
        } else {
            Err(Error::Unsupported)
        }
    } else {
        Ok((false, pos))
    }
}

/// A name at place `pos`, with or without a schema and a point before it:
/// the schema, the name, and the place behind them.
pub open spec fn qualified_name(tokens: Seq<Lexeme>, pos: int) -> Result<
    (Option<Seq<char>>, Seq<char>, int),
    Error,
> {
    match identifier_at(tokens, pos) {
        None => Err(Error::Unsupported),
        Some(first) => if operator_at(tokens, pos + 1, "."@) {
            match identifier_at(tokens, pos + 2) {
                None => Err(Error::Unsupported),
                Some(second) => Ok((Some(first), second, pos + 3)),
            }
        } else {
            Ok((None, first, pos + 1))
        },
    }
}

/// Reads an `IF NOT EXISTS` at place `pos`, or nothing.
pub fn parse_if_not_exists(tokens: &[Token], pos: usize) -> (r: Result<(bool, usize), Error>)
    requires
        pos <= tokens@.len(),
    ensures
        match if_not_exists(tokens.deep_view(), pos as int) {
            Ok((found, next)) => r matches Ok((f, n)) && f == found && n == next,
            Err(e) => r matches Err(f) && f == e,
        },
        r matches Ok((_, next)) ==> pos <= next <= tokens@.len(),
{
    if at_word(tokens, pos, &Token::If) {
        if at_word(tokens, pos + 1, &Token::Not) && at_word(tokens, pos + 2, &Token::Exists) {
            Ok((true, pos + 3))
        } else {
            Err(Error::Unsupported)
        }
    } else {
        Ok((false, pos))
    }
}

/// Reads a name at place `pos`, with or without a schema before it.
pub fn parse_qualified_name(tokens: &[Token], pos: usize) -> (r: Result<
    (Option<String>, String, usize),
    Error,
>)
    requires
        pos <= tokens@.len(),
    ensures
        match qualified_name(tokens.deep_view(), pos as int) {
            Ok((schema, name, next)) => r matches Ok((s, n, at)) && s.deep_view() == schema && n@
                == name && at == next && pos <= at <= tokens@.len(),
            Err(e) => r matches Err(f) && f == e,
        },
{
    let first = match identifier(tokens, pos) {
        Some(first) => first,
        None => {
            return Err(Error::Unsupported);
        },
    };
    if at_operator(tokens, pos + 1, ".") {
        match identifier(tokens, pos + 2) {
            Some(second) => Ok((Some(first), second, pos + 3)),
            None => Err(Error::Unsupported),
        }
    } else {
        Ok((None, first, pos + 1))
    }
}

impl Parse for CreateTableStmt {
    /// What follows `CREATE TABLE`: `TEMP` or not, `IF NOT EXISTS` or not,
    /// the table's name, and what the table holds.
    open spec fn parsed(tokens: Seq<Lexeme>, pos: int) -> Result<(CreateTableView, int), Error> {
        let temp = word_at(tokens, pos, Token::Temp);
        let at = if temp {
            pos + 1
        } else {
            pos
        };
        match if_not_exists(tokens, at) {
            Err(e) => Err(e),
            Ok((if_not_exists, at)) => match qualified_name(tokens, at) {
                Err(e) => Err(e),
                Ok((schema_name, table_name, at)) => match SchemaConstructor::parsed(tokens, at) {
                    Err(e) => Err(e),
                    Ok((schema_constructor, next)) => Ok(
                        (
                            CreateTableView {
                                temp,
                                if_not_exists,
                                schema_name,
                                table_name,
                                schema_constructor,
                            },
                            next,
                        ),
                    ),
                },
            },
        }
    }

    fn parse(tokens: &[Token], pos: usize) -> (r: Result<(Self, usize), Error>) {
        let temp = at_word(tokens, pos, &Token::Temp);
        let at = if temp {
            pos + 1
        } else {
            pos
        };
        let (if_not_exists, at) = match parse_if_not_exists(tokens, at) {
            Ok(found) => found,
            Err(e) => {
                return Err(e);
            },
        };
        let (schema_name, table_name, at) = match parse_qualified_name(tokens, at) {
            Ok(found) => found,
            Err(e) => {
                return Err(e);
            },
        };
        match SchemaConstructor::parse(tokens, at) {
            Ok((schema_constructor, next)) => Ok(
                (
                    CreateTableStmt {
                        temp,
                        if_not_exists,
                        schema_name,
                        table_name,
                        schema_constructor,
                    },
                    next,
                ),
            ),
            Err(e) => Err(e),
        }
    }
}

} // verus!
