//! Statements: the kinds that SQL has, of which three are read.

use super::create_index::{CreateIndexStmt, CreateIndexView};
use super::create_table::{CreateTableStmt, CreateTableView};
use super::select::{SelectStmt, SelectView};
use super::tokenizer::{Lexeme, Token};
use super::{at_word, word_at, Parse};
use crate::error::Error;
use vstd::prelude::*;

verus! {

/// A statement. `CREATE INDEX`, `CREATE TABLE` and `SELECT` are read; the
/// other kinds only have a name.
#[derive(Debug, PartialEq)]
pub enum Statement {
    AlterTable,
    Analyze,
    Attach,
    Begin,
    Commit,
    CreateIndex { stmt: CreateIndexStmt, unique: bool },
    CreateTable(CreateTableStmt),
    CreateTrigger,
    CreateView,
    CreateVirtualTable,
    Delete,
    DeleteFrom,
    Detach,
    DropIndex,
    DropTable,
    DropTrigger,
    DropView,
    Insert,
    Pragma,
    Reindex,
    Release,
    Rollback,
    Savepoint,
    Select(SelectStmt),
    Update,
    Vacuum,
}

/// What a [`Statement`] stands for: a statement of a kind that holds
/// nothing stands for itself.
pub enum StatementView {
    CreateIndex { stmt: CreateIndexView, unique: bool },
    CreateTable(CreateTableView),
    Select(SelectView),
    Other(Statement),
}

impl DeepView for Statement {
    type V = StatementView;

    open spec fn deep_view(&self) -> StatementView {
        match self {
            Statement::CreateIndex { stmt, unique } => StatementView::CreateIndex {
                stmt: stmt.deep_view(),
                unique: *unique,
            },
            Statement::CreateTable(stmt) => StatementView::CreateTable(stmt.deep_view()),
            Statement::Select(stmt) => StatementView::Select(stmt.deep_view()),
            _ => StatementView::Other(*self),
        }
    }
}

impl Parse for Statement {
    /// `CREATE TABLE`, `CREATE INDEX`, `CREATE UNIQUE INDEX` or `SELECT`,
    /// each with what follows it.
    open spec fn parsed(tokens: Seq<Lexeme>, pos: int) -> Result<(StatementView, int), Error> {
        if word_at(tokens, pos, Token::Create) {
            if word_at(tokens, pos + 1, Token::Table) {
                match CreateTableStmt::parsed(tokens, pos + 2) {
                    Ok((stmt, next)) => Ok((StatementView::CreateTable(stmt), next)),
                    Err(e) => Err(e),
                }
            } else if word_at(tokens, pos + 1, Token::Index) {
                match CreateIndexStmt::parsed(tokens, pos + 2) {
                    Ok((stmt, next)) => Ok(
                        (StatementView::CreateIndex { stmt, unique: false }, next),
                    ),
                    Err(e) => Err(e),
                }
            } else if word_at(tokens, pos + 1, Token::Unique) && word_at(
                tokens,
                pos + 2,
                Token::Index,
            ) {
                match CreateIndexStmt::parsed(tokens, pos + 3) {
                    Ok((stmt, next)) => Ok((StatementView::CreateIndex { stmt, unique: true }, next)),
                    Err(e) => Err(e),
                }
            } else {
                Err(Error::Unsupported)
            }
        } else if word_at(tokens, pos, Token::Select) {
            match SelectStmt::parsed(tokens, pos + 1) {
                Ok((stmt, next)) => Ok((StatementView::Select(stmt), next)),
                Err(e) => Err(e),
            }
        } else {
            Err(Error::Unsupported)
        }
    }

    fn parse(tokens: &[Token], pos: usize) -> (r: Result<(Self, usize), Error>) {
        if at_word(tokens, pos, &Token::Create) {
            if at_word(tokens, pos + 1, &Token::Table) {
                match CreateTableStmt::parse(tokens, pos + 2) {
                    Ok((stmt, next)) => Ok((Statement::CreateTable(stmt), next)),
                    Err(e) => Err(e),
                }
            } else if at_word(tokens, pos + 1, &Token::Index) {
                match CreateIndexStmt::parse(tokens, pos + 2) {
                    Ok((stmt, next)) => Ok((Statement::CreateIndex { stmt, unique: false }, next)),
                    Err(e) => Err(e),
                }
            } else if at_word(tokens, pos + 1, &Token::Unique) && at_word(
                tokens,
                pos + 2,
                &Token::Index,
            ) {
                match CreateIndexStmt::parse(tokens, pos + 3) {
                    Ok((stmt, next)) => Ok((Statement::CreateIndex { stmt, unique: true }, next)),
                    Err(e) => Err(e),
                }
            } else {
                Err(Error::Unsupported)
            }
        } else if at_word(tokens, pos, &Token::Select) {
            match SelectStmt::parse(tokens, pos + 1) {
                Ok((stmt, next)) => Ok((Statement::Select(stmt), next)),
                Err(e) => Err(e),
            }
        } else {
            Err(Error::Unsupported)
        }
    }
}

} // verus!
