//! The syntax of statements: their trees, and how text becomes a tree.
//!
//! The lexer and the parser are both written by hand.

use vstd::prelude::*;

pub mod ast;
pub mod lexer;
pub mod parser;
pub mod views;

use self::lexer::{lex, LexerError};
use self::parser::grammar::{all_statements, one_statement, ErrorView};
use self::views::{statement_view, statements_view, StatementView};
use self::parser::{rule_error_text, RuleError};

verus! {

/// Why a text is no statement.
#[derive(Debug)]
pub enum SyntaxError {
    /// The characters are no tokens.
    Lexer(LexerError),
    /// The tokens are no statement.
    Parser(RuleError),
}

/// The message of an error.
pub open spec fn syntax_error_text(e: SyntaxError) -> Seq<char> {
    match e {
        SyntaxError::Lexer(LexerError::UnknownCharacter(c)) => "unknown character: "@.push(c),
        SyntaxError::Lexer(LexerError::UnfinishedBacktick) => "backtick did not finish"@,
        SyntaxError::Lexer(LexerError::UnfinishedApostrophe) => "apostrophe did not finish"@,
        SyntaxError::Parser(e) => rule_error_text(e),
    }
}

impl SyntaxError {
    /// The message of the error.
    pub fn to_string(&self) -> (r: String)
        ensures
            r@ == syntax_error_text(*self),
    {
        match self {
            SyntaxError::Lexer(LexerError::UnknownCharacter(c)) => {
                let mut s = String::from_str("unknown character: ");
                s.push(*c);
                s
            },
            SyntaxError::Lexer(LexerError::UnfinishedBacktick) => String::from_str(
                "backtick did not finish",
            ),
            SyntaxError::Lexer(LexerError::UnfinishedApostrophe) => String::from_str(
                "apostrophe did not finish",
            ),
            SyntaxError::Parser(e) => e.to_string(),
        }
    }
}

/// The statement that a text is: the text is made tokens, and the tokens
/// are read by the grammar, with or without a semicolon behind the
/// statement. The error is that of the lexer where the text is no
/// tokens, and else that of the grammar.
pub open spec fn statement_of(query: Seq<char>) -> Result<StatementView, Option<ErrorView>> {
    match lex(query) {
        Ok(tokens) => match one_statement(tokens) {
            Ok(statement) => Ok(statement),
            Err(e) => Err(Some(e)),
        },
        Err(_) => Err(None),
    }
}

/// The statements that a text is, each with a semicolon behind it.
pub open spec fn statements_of(query: Seq<char>) -> Result<Seq<StatementView>, Option<ErrorView>> {
    match lex(query) {
        Ok(tokens) => match all_statements(tokens) {
            Ok(statements) => Ok(statements),
            Err(e) => Err(Some(e)),
        },
        Err(_) => Err(None),
    }
}

/// Reads one statement from a text. The text is made tokens first; where
/// it cannot be, no rule of the grammar is tried.
pub fn parse_statement(query: &str) -> (r: Result<ast::Statement, SyntaxError>)
    ensures
        match r {
            Ok(v) => statement_of(query@) matches Ok(x) && x == statement_view(&v),
            Err(SyntaxError::Lexer(e)) => lex(query@) matches Err(x) && x == e,
            Err(SyntaxError::Parser(e)) => statement_of(query@) matches Err(Some(x)) && x == e@,
        },
{
    let tokens = match lexer::parse(query) {
        Ok(t) => t,
        Err(e) => {
            return Err(SyntaxError::Lexer(e));
        },
    };
    match parser::parse_statement(tokens.as_slice()) {
        Ok(s) => Ok(s),
        Err(e) => Err(SyntaxError::Parser(e)),
    }
}

/// Reads statements, each with a semicolon behind it, from a text.
pub fn parse_statements(query: &str) -> (r: Result<Vec<ast::Statement>, SyntaxError>)
    ensures
        match r {
            Ok(v) => statements_of(query@) matches Ok(x) && x == statements_view(v@),
            Err(SyntaxError::Lexer(e)) => lex(query@) matches Err(x) && x == e,
            Err(SyntaxError::Parser(e)) => statements_of(query@) matches Err(Some(x)) && x == e@,
        },
{
    let tokens = match lexer::parse(query) {
        Ok(t) => t,
        Err(e) => {
            return Err(SyntaxError::Lexer(e));
        },
    };
    match parser::parse_statements(tokens.as_slice()) {
        Ok(s) => Ok(s),
        Err(e) => Err(SyntaxError::Parser(e)),
    }
}

} // verus!
