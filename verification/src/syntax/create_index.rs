//! `CREATE INDEX` statements: the index's name, its table and its columns.

use super::create_table::{
    if_not_exists, parse_if_not_exists, parse_qualified_name, qualified_name,
};
use super::select::{at_where, WhereClause, WhereView};
use super::tokenizer::{Lexeme, Token};
use super::{
    at_operator, at_word, identifier, identifier_at, operator_at, parses, word_at, Parse,
};
use crate::error::Error;
use vstd::prelude::*;

verus! {

/// A `CREATE INDEX` statement.
#[derive(Debug, PartialEq)]
pub struct CreateIndexStmt {
    pub if_not_exists: bool,
    pub schema_name: Option<String>,
    pub index_name: String,
    pub table_name: String,
    pub columns: Vec<String>,
    pub where_clause: Option<WhereClause>,
}

/// What a [`CreateIndexStmt`] stands for.
pub struct CreateIndexView {
    pub if_not_exists: bool,
    pub schema_name: Option<Seq<char>>,
    pub index_name: Seq<char>,
    pub table_name: Seq<char>,
    pub columns: Seq<Seq<char>>,
    pub where_clause: Option<WhereView>,
}

impl DeepView for CreateIndexStmt {
    type V = CreateIndexView;

    open spec fn deep_view(&self) -> CreateIndexView {
        CreateIndexView {
            if_not_exists: self.if_not_exists,
            schema_name: self.schema_name.deep_view(),
            index_name: self.index_name@,
            table_name: self.table_name@,
            columns: self.columns.deep_view(),
            where_clause: self.where_clause.deep_view(),
        }
    }
}

/// The columns of an index from place `pos` on, with commas between them,
/// up to and with the closing bracket.
pub open spec fn index_columns(tokens: Seq<Lexeme>, pos: int) -> Result<(Seq<Seq<char>>, int), Error>
    decreases tokens.len() - pos,
{
    match identifier_at(tokens, pos) {
        None => Err(Error::Unsupported),
        Some(name) => if operator_at(tokens, pos + 1, ")"@) {
            Ok((seq![name], pos + 2))
        } else if operator_at(tokens, pos + 1, ","@) {
            match index_columns(tokens, pos + 2) {
                Ok((rest, next)) => Ok((seq![name] + rest, next)),
                Err(e) => Err(e),
            }
        } else {
            Err(Error::Unsupported)
        },
    }
}

fn parse_index_columns(tokens: &[Token], pos: usize) -> (r: Result<(Vec<String>, usize), Error>)
    requires
        pos <= tokens@.len(),
    ensures
        parses(r, index_columns(tokens.deep_view(), pos as int)),
        r matches Ok((_, next)) ==> pos <= next <= tokens@.len(),
{
    let mut columns: Vec<String> = Vec::new();
    let mut at = pos;
    let ghost all = tokens.deep_view();
    assert(columns.deep_view() =~= Seq::<Seq<char>>::empty());
    loop
        invariant
            pos <= at <= tokens.len(),
            all == tokens.deep_view(),
            index_columns(all, pos as int) == match index_columns(all, at as int) {
                Ok((rest, next)) => Ok::<(Seq<Seq<char>>, int), Error>(
                    (columns.deep_view() + rest, next),
                ),
                Err(e) => Err::<(Seq<Seq<char>>, int), Error>(e),
            },
        decreases tokens@.len() - at,
    {
        let name = match identifier(tokens, at) {
            Some(name) => name,
            None => {
                return Err(Error::Unsupported);
            },
        };
        let ghost before = columns.deep_view();
        let ghost view = name@;
        columns.push(name);
        assert(columns.deep_view() =~= before.push(view));
        if at_operator(tokens, at + 1, ")") {
            assert(before + seq![view] =~= before.push(view));
            return Ok((columns, at + 2));
        } else if at_operator(tokens, at + 1, ",") {
            proof {
                if let Ok((rest, _)) = index_columns(all, at + 2) {
                    assert(before + (seq![view] + rest) =~= before.push(view) + rest);
                }
            }
            at += 2;
        } else {
            return Err(Error::Unsupported);
        }
    }
}

impl Parse for CreateIndexStmt {
    /// What follows `CREATE INDEX`: `IF NOT EXISTS` or not, the index's
    /// name, `ON`, the table, the columns in brackets, and one condition of
    /// a `WHERE` where one follows.
    open spec fn parsed(tokens: Seq<Lexeme>, pos: int) -> Result<(CreateIndexView, int), Error> {
        match if_not_exists(tokens, pos) {
            Err(e) => Err(e),
            Ok((if_not_exists, at)) => match qualified_name(tokens, at) {
                Err(e) => Err(e),
                Ok((schema_name, index_name, at)) => if !word_at(tokens, at, Token::On) {
                    Err(Error::Unsupported)
                } else {
                    match identifier_at(tokens, at + 1) {
                        None => Err(Error::Unsupported),
                        Some(table_name) => if !operator_at(tokens, at + 2, "("@) {
                            Err(Error::Unsupported)
                        } else {
                            match index_columns(tokens, at + 3) {
                                Err(e) => Err(e),
                                Ok((columns, at)) => if word_at(tokens, at, Token::Where) {
                                    match WhereClause::parsed(tokens, at + 1) {
                                        Err(e) => Err(e),
                                        Ok((clause, next)) => Ok(
                                            (
                                                CreateIndexView {
                                                    if_not_exists,
                                                    schema_name,
                                                    index_name,
                                                    table_name,
                                                    columns,
                                                    where_clause: Some(clause),
                                                },
                                                next,
                                            ),
                                        ),
                                    }
                                } else {
                                    Ok(
                                        (
                                            CreateIndexView {
                                                if_not_exists,
                                                schema_name,
                                                index_name,
                                                table_name,
                                                columns,
                                                where_clause: None,
                                            },
                                            at,
                                        ),
                                    )
                                },
                            }
                        },
                    }
                },
            },
        }
    }

    fn parse(tokens: &[Token], pos: usize) -> (r: Result<(Self, usize), Error>) {
        let (if_not_exists, at) = match parse_if_not_exists(tokens, pos) {
            Ok(found) => found,
            Err(e) => {
                return Err(e);
            },
        };
        let (schema_name, index_name, at) = match parse_qualified_name(tokens, at) {
            Ok(found) => found,
            Err(e) => {
                return Err(e);
            },
        };
        if !at_word(tokens, at, &Token::On) {
            return Err(Error::Unsupported);
        }
        let table_name = match identifier(tokens, at + 1) {
            Some(table_name) => table_name,
            None => {
                return Err(Error::Unsupported);
            },
        };
        if !at_operator(tokens, at + 2, "(") {
            return Err(Error::Unsupported);
        }
        let (columns, at) = match parse_index_columns(tokens, at + 3) {
            Ok(found) => found,
            Err(e) => {
                return Err(e);
            },
        };
        if at_where(tokens, at) {
            match WhereClause::parse(tokens, at + 1) {
                Ok((clause, next)) => Ok(
                    (
                        CreateIndexStmt {
                            if_not_exists,
                            schema_name,
                            index_name,
                            table_name,
                            columns,
                            where_clause: Some(clause),
                        },
                        next,
                    ),
                ),
                Err(e) => Err(e),
            }
        } else {
            Ok(
                (
                    CreateIndexStmt {
                        if_not_exists,
                        schema_name,
                        index_name,
                        table_name,
                        columns,
                        where_clause: None,
                    },
                    at,
                ),
            )
        }
    }
}

} // verus!
