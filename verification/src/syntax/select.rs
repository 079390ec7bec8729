//! `SELECT` statements: columns, one table, and conditions that a column
//! equals a literal.

use super::tokenizer::{Lexeme, Token};
use super::{
    at_operator, identifier, identifier_at, literal, literal_at, operator_at, parses, word_at,
    Parse,
};
use crate::error::Error;
use vstd::prelude::*;

verus! {

/// A `SELECT` statement.
#[derive(Debug, PartialEq)]
pub struct SelectStmt {
    pub columns: Vec<String>,
    pub table: String,
    pub where_clause: Vec<WhereClause>,
}

/// One condition of a `WHERE`: that the column equals the value.
#[derive(Debug, PartialEq)]
pub struct WhereClause {
    pub column: String,
    pub value: String,
}

/// What a [`SelectStmt`] stands for.
pub struct SelectView {
    pub columns: Seq<Seq<char>>,
    pub table: Seq<char>,
    pub where_clause: Seq<WhereView>,
}

/// What a [`WhereClause`] stands for.
pub struct WhereView {
    pub column: Seq<char>,
    pub value: Seq<char>,
}

impl DeepView for WhereClause {
    type V = WhereView;

    open spec fn deep_view(&self) -> WhereView {
        WhereView { column: self.column@, value: self.value@ }
    }
}

impl DeepView for SelectStmt {
    type V = SelectView;

    open spec fn deep_view(&self) -> SelectView {
        SelectView {
            columns: self.columns.deep_view(),
            table: self.table@,
            where_clause: self.where_clause.deep_view(),
        }
    }
}

impl WhereClause {
    /// A copy of this condition.
    pub fn duplicate(&self) -> (r: WhereClause)
        ensures
            r.deep_view() == self.deep_view(),
    {
        WhereClause { column: self.column.clone(), value: self.value.clone() }
    }
}

/// The columns of a `SELECT` from place `pos` on, up to and with the
/// `FROM`: identifiers, with or without commas between them.
pub open spec fn select_columns(tokens: Seq<Lexeme>, pos: int) -> Result<(Seq<Seq<char>>, int), Error>
    decreases tokens.len() - pos,
{
    if word_at(tokens, pos, Token::From) {
        Ok((Seq::empty(), pos + 1))
    } else if operator_at(tokens, pos, ","@) {
        select_columns(tokens, pos + 1)
    } else {
        match identifier_at(tokens, pos) {
            Some(name) => match select_columns(tokens, pos + 1) {
                Ok((rest, next)) => Ok((seq![name] + rest, next)),
                Err(e) => Err(e),
            },
            None => Err(Error::Unsupported),
        }
    }
}

/// The conditions from place `pos` on, with `AND` between them.
pub open spec fn where_clauses(tokens: Seq<Lexeme>, pos: int) -> Result<(Seq<WhereView>, int), Error>
    decreases tokens.len() - pos,
{
    match WhereClause::parsed(tokens, pos) {
        Err(e) => Err(e),
        Ok((clause, next)) => if word_at(tokens, next, Token::And) && next > pos {
            match where_clauses(tokens, next + 1) {
                Ok((rest, end)) => Ok((seq![clause] + rest, end)),
                Err(e) => Err(e),
            }
        } else {
            Ok((seq![clause], next))
        },
    }
}

impl Parse for WhereClause {
    /// An identifier, the operator `=` and a literal.
    open spec fn parsed(tokens: Seq<Lexeme>, pos: int) -> Result<(WhereView, int), Error> {
        match identifier_at(tokens, pos) {
            None => Err(Error::Unsupported),
            Some(column) => if !operator_at(tokens, pos + 1, "="@) {
                Err(Error::Unsupported)
            } else {
                match literal_at(tokens, pos + 2) {
                    None => Err(Error::Unsupported),
                    Some(value) => Ok((WhereView { column, value }, pos + 3)),
                }
            },
        }
    }

    fn parse(tokens: &[Token], pos: usize) -> (r: Result<(Self, usize), Error>) {
        let column = match identifier(tokens, pos) {
            Some(column) => column,
            None => {
                return Err(Error::Unsupported);
            },
        };
        if !at_operator(tokens, pos + 1, "=") {
            return Err(Error::Unsupported);
        }
        let value = match literal(tokens, pos + 2) {
            Some(value) => value,
            None => {
                return Err(Error::Unsupported);
            },
        };
        Ok((WhereClause { column, value }, pos + 3))
    }
}

/// Whether the keyword `FROM` stands at place `pos`.
fn at_from(tokens: &[Token], pos: usize) -> (b: bool)
    ensures
        b == word_at(tokens.deep_view(), pos as int, Token::From),
        b ==> pos < tokens.len(),
{
    pos < tokens.len() && matches!(tokens[pos], Token::From)
}

/// Whether the keyword `WHERE` stands at place `pos`.
pub fn at_where(tokens: &[Token], pos: usize) -> (b: bool)
    ensures
        b == word_at(tokens.deep_view(), pos as int, Token::Where),
        b ==> pos < tokens.len(),
{
    pos < tokens.len() && matches!(tokens[pos], Token::Where)
}

/// Whether the keyword `AND` stands at place `pos`.
fn at_and(tokens: &[Token], pos: usize) -> (b: bool)
    ensures
        b == word_at(tokens.deep_view(), pos as int, Token::And),
        b ==> pos < tokens.len(),
{
    pos < tokens.len() && matches!(tokens[pos], Token::And)
}

fn parse_select_columns(tokens: &[Token], pos: usize) -> (r: Result<(Vec<String>, usize), Error>)
    requires
        pos <= tokens@.len(),
    ensures
        parses(r, select_columns(tokens.deep_view(), pos as int)),
        r matches Ok((_, next)) ==> pos <= next <= tokens@.len(),
{
    let mut columns: Vec<String> = Vec::new();
    let mut at = pos;
    let ghost all = tokens.deep_view();
    assert(columns.deep_view() =~= Seq::<Seq<char>>::empty());
    loop
        invariant
            pos <= at <= tokens.len(),
            all == tokens.deep_view(),
            select_columns(all, pos as int) == match select_columns(all, at as int) {
                Ok((rest, next)) => Ok::<(Seq<Seq<char>>, int), Error>(
                    (columns.deep_view() + rest, next),
                ),
                Err(e) => Err::<(Seq<Seq<char>>, int), Error>(e),
            },
        decreases tokens@.len() - at,
    {
        if at_from(tokens, at) {
            assert(columns.deep_view() + Seq::<Seq<char>>::empty() =~= columns.deep_view());
            return Ok((columns, at + 1));
        } else if at_operator(tokens, at, ",") {
            at += 1;
        } else {
            match identifier(tokens, at) {
                Some(name) => {
                    let ghost before = columns.deep_view();
                    proof {
                        if let Ok((rest, _)) = select_columns(all, at + 1) {
                            assert(before + (seq![name@] + rest) =~= before.push(name@) + rest);
                        }
                    }
                    columns.push(name);
                    assert(columns.deep_view() =~= before.push(name@));
                    at += 1;
                },
                None => {
                    return Err(Error::Unsupported);
                },
            }
        }
    }
}

/// Reads the conditions from place `pos` on, with `AND` between them.
pub fn parse_where_clauses(tokens: &[Token], pos: usize) -> (r: Result<
    (Vec<WhereClause>, usize),
    Error,
>)
    requires
        pos <= tokens@.len(),
    ensures
        parses(r, where_clauses(tokens.deep_view(), pos as int)),
        r matches Ok((_, next)) ==> pos <= next <= tokens@.len(),
{
    let mut clauses: Vec<WhereClause> = Vec::new();
    let mut at = pos;
    let ghost all = tokens.deep_view();
    assert(clauses.deep_view() =~= Seq::<WhereView>::empty());
    loop
        invariant
            pos <= at <= tokens.len(),
            all == tokens.deep_view(),
            where_clauses(all, pos as int) == match where_clauses(all, at as int) {
                Ok((rest, next)) => Ok::<(Seq<WhereView>, int), Error>(
                    (clauses.deep_view() + rest, next),
                ),
                Err(e) => Err::<(Seq<WhereView>, int), Error>(e),
            },
        decreases tokens@.len() - at,
    {
        let (clause, next) = match WhereClause::parse(tokens, at) {
            Ok(found) => found,
            Err(e) => {
                return Err(e);
            },
        };
        let ghost before = clauses.deep_view();
        let ghost view = clause.deep_view();
        clauses.push(clause);
        assert(clauses.deep_view() =~= before.push(view));
        if at_and(tokens, next) {
            proof {
                if let Ok((rest, _)) = where_clauses(all, next + 1) {
                    assert(before + (seq![view] + rest) =~= before.push(view) + rest);
                }
            }
            at = next + 1;
        } else {
            assert(before + seq![view] =~= before.push(view));
            return Ok((clauses, next));
        }
    }
}

impl Parse for SelectStmt {
    /// The columns up to `FROM`, the table, and the conditions of a `WHERE`
    /// where one follows.
    open spec fn parsed(tokens: Seq<Lexeme>, pos: int) -> Result<(SelectView, int), Error> {
        match select_columns(tokens, pos) {
            Err(e) => Err(e),
            Ok((columns, at)) => match identifier_at(tokens, at) {
                None => Err(Error::Unsupported),
                Some(table) => if word_at(tokens, at + 1, Token::Where) {
                    match where_clauses(tokens, at + 2) {
                        Err(e) => Err(e),
                        Ok((where_clause, next)) => Ok(
                            (SelectView { columns, table, where_clause }, next),
                        ),
                    }
                } else {
                    Ok((SelectView { columns, table, where_clause: Seq::empty() }, at + 1))
                },
            },
        }
    }

    fn parse(tokens: &[Token], pos: usize) -> (r: Result<(Self, usize), Error>) {
        let (columns, at) = match parse_select_columns(tokens, pos) {
            Ok(found) => found,
            Err(e) => {
                return Err(e);
            },
        };
        let table = match identifier(tokens, at) {
            Some(table) => table,
            None => {
                return Err(Error::Unsupported);
            },
        };
        if at_where(tokens, at + 1) {
            match parse_where_clauses(tokens, at + 2) {
                Ok((where_clause, next)) => Ok((SelectStmt { columns, table, where_clause }, next)),
                Err(e) => Err(e),
            }
        } else {
            let where_clause: Vec<WhereClause> = Vec::new();
            assert(where_clause.deep_view() =~= Seq::<WhereView>::empty());
            Ok((SelectStmt { columns, table, where_clause }, at + 1))
        }
    }
}

} // verus!
