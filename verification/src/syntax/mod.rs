//! The SQL subset that the engine reads: `SELECT`, `CREATE TABLE` and
//! `CREATE INDEX`. A parser takes the tokens of a statement and a place among
//! them, and gives what it read together with the place behind it.

pub mod create_index;
pub mod create_table;
pub mod select;
pub mod statement;
pub mod tokenizer;

use crate::error::Error;
use tokenizer::{Lexeme, Literal, LiteralKind, Token};
use vstd::prelude::*;

verus! {

/// What can be read from tokens.
pub trait Parse: Sized + DeepView {
    /// What the tokens from place `pos` on spell, and the place behind it.
    spec fn parsed(tokens: Seq<Lexeme>, pos: int) -> Result<(Self::V, int), Error>;

    /// Reads one value from the tokens at place `pos`.
    fn parse(tokens: &[Token], pos: usize) -> (r: Result<(Self, usize), Error>)
        requires
            pos <= tokens@.len(),
        ensures
            parses(r, Self::parsed(tokens.deep_view(), pos as int)),
            r matches Ok((_, next)) ==> pos <= next <= tokens@.len(),
    ;
}

/// The result `r` of a parser stands for what `s` says: the same error, or
/// a value whose model is the one that `s` holds, and the same place.
pub open spec fn parses<T: DeepView>(
    r: Result<(T, usize), Error>,
    s: Result<(T::V, int), Error>,
) -> bool {
    match s {
        Ok((v, next)) => r matches Ok((x, n)) && x.deep_view() == v && n == next,
        Err(e) => r matches Err(f) && f == e,
    }
}

/// The token at place `pos`; none behind the last one.
pub open spec fn token_at(tokens: Seq<Lexeme>, pos: int) -> Option<Lexeme> {
    if 0 <= pos < tokens.len() {
        Some(tokens[pos])
    } else {
        None
    }
}

/// Whether the keyword `word` stands at place `pos`.
pub open spec fn word_at(tokens: Seq<Lexeme>, pos: int, word: Token) -> bool {
    token_at(tokens, pos) == Some(Lexeme::Word(word))
}

/// Whether the operator `op` stands at place `pos`.
pub open spec fn operator_at(tokens: Seq<Lexeme>, pos: int, op: Seq<char>) -> bool {
    token_at(tokens, pos) == Some(Lexeme::Operator(op))
}

/// The identifier at place `pos`, if one stands there.
pub open spec fn identifier_at(tokens: Seq<Lexeme>, pos: int) -> Option<Seq<char>> {
    match token_at(tokens, pos) {
        Some(Lexeme::Identifier(name)) => Some(name),
        _ => None,
    }
}

/// The text of the literal at place `pos`, if one stands there.
pub open spec fn literal_at(tokens: Seq<Lexeme>, pos: int) -> Option<Seq<char>> {
    match token_at(tokens, pos) {
        Some(Lexeme::Literal(literal)) => Some(literal.text()),
        _ => None,
    }
}

/// Whether the operator `op` stands at place `pos`.
pub fn at_operator(tokens: &[Token], pos: usize, op: &str) -> (b: bool)
    ensures
        b == operator_at(tokens.deep_view(), pos as int, op@),
        b ==> pos < tokens.len(),
{
    if pos >= tokens.len() {
        return false;
    }
    match &tokens[pos] {
        Token::Operator(found) => crate::text::text_equal(found.as_str(), op),
        _ => false,
    }
}

/// Whether the keyword `word` stands at place `pos`.
pub fn at_word(tokens: &[Token], pos: usize, word: &Token) -> (b: bool)
    requires
        word.is_plain(),
    ensures
        b == word_at(tokens.deep_view(), pos as int, *word),
        b ==> pos < tokens.len(),
{
    pos < tokens.len() && tokens[pos].is_word(word)
}

/// A copy of the identifier at place `pos`, if one stands there.
pub fn identifier(tokens: &[Token], pos: usize) -> (r: Option<String>)
    ensures
        r.deep_view() == identifier_at(tokens.deep_view(), pos as int),
        r is Some ==> pos < tokens.len(),
{
    if pos >= tokens.len() {
        return None;
    }
    match &tokens[pos] {
        Token::Identifier(name) => Some(name.clone()),
        _ => None,
    }
}

/// A copy of the text of the literal at place `pos`, if one stands there.
pub fn literal(tokens: &[Token], pos: usize) -> (r: Option<String>)
    ensures
        r.deep_view() == literal_at(tokens.deep_view(), pos as int),
        r is Some ==> pos < tokens.len(),
{
    if pos >= tokens.len() {
        return None;
    }
    match &tokens[pos] {
        Token::Literal(LiteralKind::Str(s)) => Some(s.clone()),
        Token::Literal(LiteralKind::Blob(s)) => Some(s.clone()),
        Token::Literal(LiteralKind::Integer(s)) => Some(s.clone()),
        Token::Literal(LiteralKind::Float(s)) => Some(s.clone()),
        _ => None,
    }
}

/// Splits the text of a statement into tokens and reads the statement.
pub fn parse(input: &str) -> (r: Result<statement::Statement, Error>)
    ensures
        crate::error::yields(r, spec_parse(input@)),
{
    reveal(spec_parse);
    let tokens = tokenizer::tokenize(input);
    match statement::Statement::parse(tokens.as_slice(), 0) {
        Ok((stmt, _)) => Ok(stmt),
        Err(e) => Err(e),
    }
}

/// The statement that a text spells.
#[verifier::opaque]
pub open spec fn spec_parse(input: Seq<char>) -> Result<statement::StatementView, Error> {
    match statement::Statement::parsed(tokenizer::spec_tokenize(input), 0) {
        Ok((stmt, _)) => Ok(stmt),
        Err(e) => Err(e),
    }
}

} // verus!
