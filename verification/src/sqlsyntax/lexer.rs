//! The lexer: from the characters of statements to tokens.

use vstd::prelude::*;
use vstd::std_specs::cmp::PartialEqSpecImpl;
use crate::identifier::fold_case;
use crate::text::{chars_eq_str, chars_of, push_str, string_of, to_lower};

verus! {

/// A token of a statement.
#[derive(Debug)]
pub enum Token {
    // Words
    Select,
    From,
    Where,
    Group,
    Having,
    By,
    Limit,
    Distinct,
    Order,
    Asc,
    Desc,
    As,
    Join,
    Inner,
    Outer,
    Left,
    Right,
    On,
    Insert,
    Into,
    Values,
    Update,
    Delete,
    Create,
    Table,
    Index,
    Constraint,
    Primary,
    Key,
    Unique,
    References,
    And,
    Or,
    Between,
    In,
    Is,
    Not,
    Null,
    Explain,
    // Non-letter tokens
    Equal,
    NotEqual,
    LessThan,
    LessThanOrEqual,
    GreaterThan,
    GreaterThanOrEqual,
    Plus,
    Minus,
    LeftParen,
    RightParen,
    LeftBracket,
    RightBracket,
    Dot,
    Comma,
    Semicolon,
    Ampersand,
    Pipe,
    ForwardSlash,
    /// ||, the concatenate operator
    DoublePipe,
    /// *, the wildcard for SELECT
    Asterisk,
    /// ?, the prepared statement placeholder
    PreparedStatementPlaceholder,
    // Tokens with values
    Number(String),
    Ident(String),
    StringLiteral(String),
}

/// A token as mathematics sees it: one of the tokens without a text, or a
/// number, an identifier or a string with its text.
pub enum TokenView {
    Fixed(Token),
    Number(Seq<char>),
    Ident(Seq<char>),
    StringLiteral(Seq<char>),
}

impl View for Token {
    type V = TokenView;

    open spec fn view(&self) -> TokenView {
        match self {
            Token::Number(s) => TokenView::Number(s@),
            Token::Ident(s) => TokenView::Ident(s@),
            Token::StringLiteral(s) => TokenView::StringLiteral(s@),
            _ => TokenView::Fixed(*self),
        }
    }
}

/// The tokens that a list of tokens stands for.
pub open spec fn tokens_view(tokens: Seq<Token>) -> Seq<TokenView> {
    Seq::new(tokens.len(), |i: int| tokens[i]@)
}

impl Token {
    /// A number for each kind of token.
    pub open spec fn kind(&self) -> int {
        match self {
            Token::Select => 0,
            Token::From => 1,
            Token::Where => 2,
            Token::Group => 3,
            Token::Having => 4,
            Token::By => 5,
            Token::Limit => 6,
            Token::Distinct => 7,
            Token::Order => 8,
            Token::Asc => 9,
            Token::Desc => 10,
            Token::As => 11,
            Token::Join => 12,
            Token::Inner => 13,
            Token::Outer => 14,
            Token::Left => 15,
            Token::Right => 16,
            Token::On => 17,
            Token::Insert => 18,
            Token::Into => 19,
            Token::Values => 20,
            Token::Update => 21,
            Token::Delete => 22,
            Token::Create => 23,
            Token::Table => 24,
            Token::Index => 25,
            Token::Constraint => 26,
            Token::Primary => 27,
            Token::Key => 28,
            Token::Unique => 29,
            Token::References => 30,
            Token::And => 31,
            Token::Or => 32,
            Token::Between => 33,
            Token::In => 34,
            Token::Is => 35,
            Token::Not => 36,
            Token::Null => 37,
            Token::Explain => 38,
            Token::Equal => 39,
            Token::NotEqual => 40,
            Token::LessThan => 41,
            Token::LessThanOrEqual => 42,
            Token::GreaterThan => 43,
            Token::GreaterThanOrEqual => 44,
            Token::Plus => 45,
            Token::Minus => 46,
            Token::LeftParen => 47,
            Token::RightParen => 48,
            Token::LeftBracket => 49,
            Token::RightBracket => 50,
            Token::Dot => 51,
            Token::Comma => 52,
            Token::Semicolon => 53,
            Token::Ampersand => 54,
            Token::Pipe => 55,
            Token::ForwardSlash => 56,
            Token::DoublePipe => 57,
            Token::Asterisk => 58,
            Token::PreparedStatementPlaceholder => 59,
            Token::Number(_) => 60,
            Token::Ident(_) => 61,
            Token::StringLiteral(_) => 62,
        }
    }

    /// The number of the kind of the token.
    pub fn kind_number(&self) -> (r: u8)
        ensures
            r as int == self.kind(),
    {
        match self {
            Token::Select => 0,
            Token::From => 1,
            Token::Where => 2,
            Token::Group => 3,
            Token::Having => 4,
            Token::By => 5,
            Token::Limit => 6,
            Token::Distinct => 7,
            Token::Order => 8,
            Token::Asc => 9,
            Token::Desc => 10,
            Token::As => 11,
            Token::Join => 12,
            Token::Inner => 13,
            Token::Outer => 14,
            Token::Left => 15,
            Token::Right => 16,
            Token::On => 17,
            Token::Insert => 18,
            Token::Into => 19,
            Token::Values => 20,
            Token::Update => 21,
            Token::Delete => 22,
            Token::Create => 23,
            Token::Table => 24,
            Token::Index => 25,
            Token::Constraint => 26,
            Token::Primary => 27,
            Token::Key => 28,
            Token::Unique => 29,
            Token::References => 30,
            Token::And => 31,
            Token::Or => 32,
            Token::Between => 33,
            Token::In => 34,
            Token::Is => 35,
            Token::Not => 36,
            Token::Null => 37,
            Token::Explain => 38,
            Token::Equal => 39,
            Token::NotEqual => 40,
            Token::LessThan => 41,
            Token::LessThanOrEqual => 42,
            Token::GreaterThan => 43,
            Token::GreaterThanOrEqual => 44,
            Token::Plus => 45,
            Token::Minus => 46,
            Token::LeftParen => 47,
            Token::RightParen => 48,
            Token::LeftBracket => 49,
            Token::RightBracket => 50,
            Token::Dot => 51,
            Token::Comma => 52,
            Token::Semicolon => 53,
            Token::Ampersand => 54,
            Token::Pipe => 55,
            Token::ForwardSlash => 56,
            Token::DoublePipe => 57,
            Token::Asterisk => 58,
            Token::PreparedStatementPlaceholder => 59,
            Token::Number(_) => 60,
            Token::Ident(_) => 61,
            Token::StringLiteral(_) => 62,
        }
    }

    /// The name of the kind of the token.
    pub open spec fn kind_text(&self) -> Seq<char> {
        match self {
            Token::Select => "Select"@,
            Token::From => "From"@,
            Token::Where => "Where"@,
            Token::Group => "Group"@,
            Token::Having => "Having"@,
            Token::By => "By"@,
            Token::Limit => "Limit"@,
            Token::Distinct => "Distinct"@,
            Token::Order => "Order"@,
            Token::Asc => "Asc"@,
            Token::Desc => "Desc"@,
            Token::As => "As"@,
            Token::Join => "Join"@,
            Token::Inner => "Inner"@,
            Token::Outer => "Outer"@,
            Token::Left => "Left"@,
            Token::Right => "Right"@,
            Token::On => "On"@,
            Token::Insert => "Insert"@,
            Token::Into => "Into"@,
            Token::Values => "Values"@,
            Token::Update => "Update"@,
            Token::Delete => "Delete"@,
            Token::Create => "Create"@,
            Token::Table => "Table"@,
            Token::Index => "Index"@,
            Token::Constraint => "Constraint"@,
            Token::Primary => "Primary"@,
            Token::Key => "Key"@,
            Token::Unique => "Unique"@,
            Token::References => "References"@,
            Token::And => "And"@,
            Token::Or => "Or"@,
            Token::Between => "Between"@,
            Token::In => "In"@,
            Token::Is => "Is"@,
            Token::Not => "Not"@,
            Token::Null => "Null"@,
            Token::Explain => "Explain"@,
            Token::Equal => "Equal"@,
            Token::NotEqual => "NotEqual"@,
            Token::LessThan => "LessThan"@,
            Token::LessThanOrEqual => "LessThanOrEqual"@,
            Token::GreaterThan => "GreaterThan"@,
            Token::GreaterThanOrEqual => "GreaterThanOrEqual"@,
            Token::Plus => "Plus"@,
            Token::Minus => "Minus"@,
            Token::LeftParen => "LeftParen"@,
            Token::RightParen => "RightParen"@,
            Token::LeftBracket => "LeftBracket"@,
            Token::RightBracket => "RightBracket"@,
            Token::Dot => "Dot"@,
            Token::Comma => "Comma"@,
            Token::Semicolon => "Semicolon"@,
            Token::Ampersand => "Ampersand"@,
            Token::Pipe => "Pipe"@,
            Token::ForwardSlash => "ForwardSlash"@,
            Token::DoublePipe => "DoublePipe"@,
            Token::Asterisk => "Asterisk"@,
            Token::PreparedStatementPlaceholder => "PreparedStatementPlaceholder"@,
            Token::Number(_) => "Number"@,
            Token::Ident(_) => "Ident"@,
            Token::StringLiteral(_) => "StringLiteral"@,
        }
    }

    /// The name of the kind of the token.
    pub fn kind_name(&self) -> (r: &'static str)
        ensures
            r@ == self.kind_text(),
    {
        match self {
            Token::Select => "Select",
            Token::From => "From",
            Token::Where => "Where",
            Token::Group => "Group",
            Token::Having => "Having",
            Token::By => "By",
            Token::Limit => "Limit",
            Token::Distinct => "Distinct",
            Token::Order => "Order",
            Token::Asc => "Asc",
            Token::Desc => "Desc",
            Token::As => "As",
            Token::Join => "Join",
            Token::Inner => "Inner",
            Token::Outer => "Outer",
            Token::Left => "Left",
            Token::Right => "Right",
            Token::On => "On",
            Token::Insert => "Insert",
            Token::Into => "Into",
            Token::Values => "Values",
            Token::Update => "Update",
            Token::Delete => "Delete",
            Token::Create => "Create",
            Token::Table => "Table",
            Token::Index => "Index",
            Token::Constraint => "Constraint",
            Token::Primary => "Primary",
            Token::Key => "Key",
            Token::Unique => "Unique",
            Token::References => "References",
            Token::And => "And",
            Token::Or => "Or",
            Token::Between => "Between",
            Token::In => "In",
            Token::Is => "Is",
            Token::Not => "Not",
            Token::Null => "Null",
            Token::Explain => "Explain",
            Token::Equal => "Equal",
            Token::NotEqual => "NotEqual",
            Token::LessThan => "LessThan",
            Token::LessThanOrEqual => "LessThanOrEqual",
            Token::GreaterThan => "GreaterThan",
            Token::GreaterThanOrEqual => "GreaterThanOrEqual",
            Token::Plus => "Plus",
            Token::Minus => "Minus",
            Token::LeftParen => "LeftParen",
            Token::RightParen => "RightParen",
            Token::LeftBracket => "LeftBracket",
            Token::RightBracket => "RightBracket",
            Token::Dot => "Dot",
            Token::Comma => "Comma",
            Token::Semicolon => "Semicolon",
            Token::Ampersand => "Ampersand",
            Token::Pipe => "Pipe",
            Token::ForwardSlash => "ForwardSlash",
            Token::DoublePipe => "DoublePipe",
            Token::Asterisk => "Asterisk",
            Token::PreparedStatementPlaceholder => "PreparedStatementPlaceholder",
            Token::Number(_) => "Number",
            Token::Ident(_) => "Ident",
            Token::StringLiteral(_) => "StringLiteral",
        }
    }

    /// The token in words: the name of its kind, and behind it its text
    /// between brackets and quotes where it has one.
    pub open spec fn text(&self) -> Seq<char> {
        match self {
            Token::Number(s) | Token::Ident(s) | Token::StringLiteral(s) => (self.kind_text().push(
                '(',
            ).push('"') + s@).push('"').push(')'),
            _ => self.kind_text(),
        }
    }

    /// The token in words.
    pub fn describe(&self) -> (r: String)
        ensures
            r@ == self.text(),
    {
        let mut out: Vec<char> = Vec::new();
        push_str(&mut out, self.kind_name());
        proof {
            assert(out@ =~= self.kind_text());
        }
        match self {
            Token::Number(s) | Token::Ident(s) | Token::StringLiteral(s) => {
                out.push('(');
                out.push('"');
                push_str(&mut out, s.as_str());
                out.push('"');
                out.push(')');
            },
            _ => {},
        }
        string_of(out.as_slice())
    }
}

/// Two tokens of one kind are the same token unless they differ in their
/// text.
pub proof fn lemma_token_kind(a: Token, b: Token)
    requires
        a.kind() == b.kind(),
        !(a is Number || a is Ident || a is StringLiteral),
    ensures
        a == b,
{
}

impl Clone for Token {
    fn clone(&self) -> (r: Token)
        ensures
            r@ == self@,
    {
        match self {
            Token::Number(s) => Token::Number(s.clone()),
            Token::Ident(s) => Token::Ident(s.clone()),
            Token::StringLiteral(s) => Token::StringLiteral(s.clone()),
            _ => {
                let r = fixed_token(self.kind_number());
                proof {
                    lemma_token_kind(r, *self);
                }
                r
            },
        }
    }
}

/// The token without a text of the kind with the given number.
pub fn fixed_token(kind: u8) -> (r: Token)
    requires
        0 <= kind < 60,
    ensures
        r.kind() == kind,
{
    if kind == 0 {
        Token::Select
    }     else if kind == 1 {
        Token::From
    }     else if kind == 2 {
        Token::Where
    }     else if kind == 3 {
        Token::Group
    }     else if kind == 4 {
        Token::Having
    }     else if kind == 5 {
        Token::By
    }     else if kind == 6 {
        Token::Limit
    }     else if kind == 7 {
        Token::Distinct
    }     else if kind == 8 {
        Token::Order
    }     else if kind == 9 {
        Token::Asc
    }     else if kind == 10 {
        Token::Desc
    }     else if kind == 11 {
        Token::As
    }     else if kind == 12 {
        Token::Join
    }     else if kind == 13 {
        Token::Inner
    }     else if kind == 14 {
        Token::Outer
    }     else if kind == 15 {
        Token::Left
    }     else if kind == 16 {
        Token::Right
    }     else if kind == 17 {
        Token::On
    }     else if kind == 18 {
        Token::Insert
    }     else if kind == 19 {
        Token::Into
    }     else if kind == 20 {
        Token::Values
    }     else if kind == 21 {
        Token::Update
    }     else if kind == 22 {
        Token::Delete
    }     else if kind == 23 {
        Token::Create
    }     else if kind == 24 {
        Token::Table
    }     else if kind == 25 {
        Token::Index
    }     else if kind == 26 {
        Token::Constraint
    }     else if kind == 27 {
        Token::Primary
    }     else if kind == 28 {
        Token::Key
    }     else if kind == 29 {
        Token::Unique
    }     else if kind == 30 {
        Token::References
    }     else if kind == 31 {
        Token::And
    }     else if kind == 32 {
        Token::Or
    }     else if kind == 33 {
        Token::Between
    }     else if kind == 34 {
        Token::In
    }     else if kind == 35 {
        Token::Is
    }     else if kind == 36 {
        Token::Not
    }     else if kind == 37 {
        Token::Null
    }     else if kind == 38 {
        Token::Explain
    }     else if kind == 39 {
        Token::Equal
    }     else if kind == 40 {
        Token::NotEqual
    }     else if kind == 41 {
        Token::LessThan
    }     else if kind == 42 {
        Token::LessThanOrEqual
    }     else if kind == 43 {
        Token::GreaterThan
    }     else if kind == 44 {
        Token::GreaterThanOrEqual
    }     else if kind == 45 {
        Token::Plus
    }     else if kind == 46 {
        Token::Minus
    }     else if kind == 47 {
        Token::LeftParen
    }     else if kind == 48 {
        Token::RightParen
    }     else if kind == 49 {
        Token::LeftBracket
    }     else if kind == 50 {
        Token::RightBracket
    }     else if kind == 51 {
        Token::Dot
    }     else if kind == 52 {
        Token::Comma
    }     else if kind == 53 {
        Token::Semicolon
    }     else if kind == 54 {
        Token::Ampersand
    }     else if kind == 55 {
        Token::Pipe
    }     else if kind == 56 {
        Token::ForwardSlash
    }     else if kind == 57 {
        Token::DoublePipe
    }     else if kind == 58 {
        Token::Asterisk
    } else {
        Token::PreparedStatementPlaceholder
    }
}

impl PartialEq for Token {
    fn eq(&self, other: &Token) -> (r: bool) {
        match (self, other) {
            (Token::Number(a), Token::Number(b)) => *a == *b,
            (Token::Ident(a), Token::Ident(b)) => *a == *b,
            (Token::StringLiteral(a), Token::StringLiteral(b)) => *a == *b,
            (Token::Number(_), _) => false,
            (Token::Ident(_), _) => false,
            (Token::StringLiteral(_), _) => false,
            (_, Token::Number(_)) => false,
            (_, Token::Ident(_)) => false,
            (_, Token::StringLiteral(_)) => false,
            _ => {
                let same = self.kind_number() == other.kind_number();
                proof {
                    if same {
                        lemma_token_kind(*self, *other);
                    }
                }
                same
            },
        }
    }
}

impl PartialEqSpecImpl for Token {
    open spec fn obeys_eq_spec() -> bool {
        true
    }

    open spec fn eq_spec(&self, other: &Token) -> bool {
        self@ == other@
    }
}

/// The token that a character is by itself.
pub open spec fn character_token(c: char) -> Option<Token> {
    if c == '=' {
        Some(Token::Equal)
    }     else if c == '<' {
        Some(Token::LessThan)
    }     else if c == '>' {
        Some(Token::GreaterThan)
    }     else if c == '+' {
        Some(Token::Plus)
    }     else if c == '-' {
        Some(Token::Minus)
    }     else if c == '(' {
        Some(Token::LeftParen)
    }     else if c == ')' {
        Some(Token::RightParen)
    }     else if c == '[' {
        Some(Token::LeftBracket)
    }     else if c == ']' {
        Some(Token::RightBracket)
    }     else if c == '.' {
        Some(Token::Dot)
    }     else if c == ',' {
        Some(Token::Comma)
    }     else if c == ';' {
        Some(Token::Semicolon)
    }     else if c == '&' {
        Some(Token::Ampersand)
    }     else if c == '|' {
        Some(Token::Pipe)
    }     else if c == '*' {
        Some(Token::Asterisk)
    }     else if c == '/' {
        Some(Token::ForwardSlash)
    }     else if c == '?' {
        Some(Token::PreparedStatementPlaceholder)
    } else {
        None
    }
}

/// The token that a character is by itself.
pub fn character_to_token(c: char) -> (r: Option<Token>)
    ensures
        r == character_token(c),
{
    if c == '=' {
        Some(Token::Equal)
    }     else if c == '<' {
        Some(Token::LessThan)
    }     else if c == '>' {
        Some(Token::GreaterThan)
    }     else if c == '+' {
        Some(Token::Plus)
    }     else if c == '-' {
        Some(Token::Minus)
    }     else if c == '(' {
        Some(Token::LeftParen)
    }     else if c == ')' {
        Some(Token::RightParen)
    }     else if c == '[' {
        Some(Token::LeftBracket)
    }     else if c == ']' {
        Some(Token::RightBracket)
    }     else if c == '.' {
        Some(Token::Dot)
    }     else if c == ',' {
        Some(Token::Comma)
    }     else if c == ';' {
        Some(Token::Semicolon)
    }     else if c == '&' {
        Some(Token::Ampersand)
    }     else if c == '|' {
        Some(Token::Pipe)
    }     else if c == '*' {
        Some(Token::Asterisk)
    }     else if c == '/' {
        Some(Token::ForwardSlash)
    }     else if c == '?' {
        Some(Token::PreparedStatementPlaceholder)
    } else {
        None
    }
}

/// The key word that a word in lower case is.
pub open spec fn keyword_token(word: Seq<char>) -> Option<Token> {
    if word == "select"@ {
        Some(Token::Select)
    }     else if word == "from"@ {
        Some(Token::From)
    }     else if word == "where"@ {
        Some(Token::Where)
    }     else if word == "group"@ {
        Some(Token::Group)
    }     else if word == "having"@ {
        Some(Token::Having)
    }     else if word == "by"@ {
        Some(Token::By)
    }     else if word == "limit"@ {
        Some(Token::Limit)
    }     else if word == "distinct"@ {
        Some(Token::Distinct)
    }     else if word == "order"@ {
        Some(Token::Order)
    }     else if word == "asc"@ {
        Some(Token::Asc)
    }     else if word == "desc"@ {
        Some(Token::Desc)
    }     else if word == "as"@ {
        Some(Token::As)
    }     else if word == "join"@ {
        Some(Token::Join)
    }     else if word == "inner"@ {
        Some(Token::Inner)
    }     else if word == "outer"@ {
        Some(Token::Outer)
    }     else if word == "left"@ {
        Some(Token::Left)
    }     else if word == "right"@ {
        Some(Token::Right)
    }     else if word == "on"@ {
        Some(Token::On)
    }     else if word == "insert"@ {
        Some(Token::Insert)
    }     else if word == "into"@ {
        Some(Token::Into)
    }     else if word == "values"@ {
        Some(Token::Values)
    }     else if word == "update"@ {
        Some(Token::Update)
    }     else if word == "delete"@ {
        Some(Token::Delete)
    }     else if word == "create"@ {
        Some(Token::Create)
    }     else if word == "table"@ {
        Some(Token::Table)
    }     else if word == "index"@ {
        Some(Token::Index)
    }     else if word == "constraint"@ {
        Some(Token::Constraint)
    }     else if word == "primary"@ {
        Some(Token::Primary)
    }     else if word == "key"@ {
        Some(Token::Key)
    }     else if word == "unique"@ {
        Some(Token::Unique)
    }     else if word == "references"@ {
        Some(Token::References)
    }     else if word == "and"@ {
        Some(Token::And)
    }     else if word == "or"@ {
        Some(Token::Or)
    }     else if word == "between"@ {
        Some(Token::Between)
    }     else if word == "in"@ {
        Some(Token::In)
    }     else if word == "is"@ {
        Some(Token::Is)
    }     else if word == "not"@ {
        Some(Token::Not)
    }     else if word == "null"@ {
        Some(Token::Null)
    }     else if word == "explain"@ {
        Some(Token::Explain)
    } else {
        None
    }
}

/// The token that a word is: a key word, whatever the case of its
/// letters, or else an identifier.
pub open spec fn word_token(word: Seq<char>) -> TokenView {
    match keyword_token(fold_case(word)) {
        Some(t) => TokenView::Fixed(t),
        None => TokenView::Ident(word),
    }
}

fn keyword_of(word: &[char]) -> (r: Option<Token>)
    ensures
        r == keyword_token(word@),
{
    if chars_eq_str(word, "select") {
        Some(Token::Select)
    }     else if chars_eq_str(word, "from") {
        Some(Token::From)
    }     else if chars_eq_str(word, "where") {
        Some(Token::Where)
    }     else if chars_eq_str(word, "group") {
        Some(Token::Group)
    }     else if chars_eq_str(word, "having") {
        Some(Token::Having)
    }     else if chars_eq_str(word, "by") {
        Some(Token::By)
    }     else if chars_eq_str(word, "limit") {
        Some(Token::Limit)
    }     else if chars_eq_str(word, "distinct") {
        Some(Token::Distinct)
    }     else if chars_eq_str(word, "order") {
        Some(Token::Order)
    }     else if chars_eq_str(word, "asc") {
        Some(Token::Asc)
    }     else if chars_eq_str(word, "desc") {
        Some(Token::Desc)
    }     else if chars_eq_str(word, "as") {
        Some(Token::As)
    }     else if chars_eq_str(word, "join") {
        Some(Token::Join)
    }     else if chars_eq_str(word, "inner") {
        Some(Token::Inner)
    }     else if chars_eq_str(word, "outer") {
        Some(Token::Outer)
    }     else if chars_eq_str(word, "left") {
        Some(Token::Left)
    }     else if chars_eq_str(word, "right") {
        Some(Token::Right)
    }     else if chars_eq_str(word, "on") {
        Some(Token::On)
    }     else if chars_eq_str(word, "insert") {
        Some(Token::Insert)
    }     else if chars_eq_str(word, "into") {
        Some(Token::Into)
    }     else if chars_eq_str(word, "values") {
        Some(Token::Values)
    }     else if chars_eq_str(word, "update") {
        Some(Token::Update)
    }     else if chars_eq_str(word, "delete") {
        Some(Token::Delete)
    }     else if chars_eq_str(word, "create") {
        Some(Token::Create)
    }     else if chars_eq_str(word, "table") {
        Some(Token::Table)
    }     else if chars_eq_str(word, "index") {
        Some(Token::Index)
    }     else if chars_eq_str(word, "constraint") {
        Some(Token::Constraint)
    }     else if chars_eq_str(word, "primary") {
        Some(Token::Primary)
    }     else if chars_eq_str(word, "key") {
        Some(Token::Key)
    }     else if chars_eq_str(word, "unique") {
        Some(Token::Unique)
    }     else if chars_eq_str(word, "references") {
        Some(Token::References)
    }     else if chars_eq_str(word, "and") {
        Some(Token::And)
    }     else if chars_eq_str(word, "or") {
        Some(Token::Or)
    }     else if chars_eq_str(word, "between") {
        Some(Token::Between)
    }     else if chars_eq_str(word, "in") {
        Some(Token::In)
    }     else if chars_eq_str(word, "is") {
        Some(Token::Is)
    }     else if chars_eq_str(word, "not") {
        Some(Token::Not)
    }     else if chars_eq_str(word, "null") {
        Some(Token::Null)
    }     else if chars_eq_str(word, "explain") {
        Some(Token::Explain)
    } else {
        None
    }
}

/// The token that a word is.
pub fn word_to_token(word: String) -> (r: Token)
    ensures
        r@ == word_token(word@),
{
    // Make all letters lowercase for comparison
    let chars = chars_of(word.as_str());
    let mut word_cmp: Vec<char> = Vec::new();
    let mut i: usize = 0;
    while i < chars.len()
        invariant
            i <= chars@.len(),
            word_cmp@.len() == i,
            forall|j: int| 0 <= j < i ==> word_cmp@[j] == crate::text::lower_of(chars@[j]),
        decreases chars@.len() - i,
    {
        word_cmp.push(to_lower(chars[i]));
        i = i + 1;
    }
    proof {
        assert(word_cmp@ =~= fold_case(word@));
    }
    match keyword_of(word_cmp.as_slice()) {
        Some(t) => t,
        None => Token::Ident(word),
    }
}

/// What the lexer is in the middle of.
#[derive(Debug, Clone, Copy, PartialEq, Eq, Structural)]
pub enum LexerState {
    NoState,
    Word,
    Backtick,
    Apostrophe { escaping: bool },
    Number { decimal: bool },
    /// Disambiguate an operator sequence.
    OperatorDisambiguate { first: char },
    LineComment,
    BlockComment { was_prev_char_asterisk: bool },
}

/// Why characters are no tokens.
#[derive(Debug, Clone, Copy, PartialEq, Eq, Structural)]
pub enum LexerError {
    /// A character that no token starts with.
    UnknownCharacter(char),
    /// The text ends inside backticks.
    UnfinishedBacktick,
    /// The text ends inside a string.
    UnfinishedApostrophe,
}

/// The lexer: the tokens read so far, and the characters of the token
/// that is being read.
pub struct Lexer {
    pub state: LexerState,
    pub string_buffer: String,
    pub tokens: Vec<Token>,
}

/// The lexer as mathematics sees it.
pub struct LexerView {
    pub state: LexerState,
    pub buffer: Seq<char>,
    pub tokens: Seq<TokenView>,
}

impl View for Lexer {
    type V = LexerView;

    open spec fn view(&self) -> LexerView {
        LexerView {
            state: self.state,
            buffer: self.string_buffer@,
            tokens: tokens_view(self.tokens@),
        }
    }
}

/// Whether a character can start a word.
pub open spec fn starts_word(c: char) -> bool {
    ('a' <= c <= 'z') || ('A' <= c <= 'Z') || c == '_'
}

/// Whether a character is a decimal digit.
pub open spec fn is_decimal(c: char) -> bool {
    '0' <= c <= '9'
}

/// Whether a character may be the first of an operator of two
/// characters, or of a comment.
pub open spec fn starts_sequence(c: char) -> bool {
    c == '<' || c == '>' || c == '-' || c == '|' || c == '/'
}

/// The lexer after a character that comes between tokens.
pub open spec fn no_state_step(l: LexerView, c: char) -> Result<LexerView, LexerError> {
    if starts_word(c) {
        Ok(LexerView { state: LexerState::Word, buffer: l.buffer.push(c), ..l })
    } else if c == '`' {
        Ok(LexerView { state: LexerState::Backtick, ..l })
    } else if c == '\'' {
        Ok(LexerView { state: LexerState::Apostrophe { escaping: false }, ..l })
    } else if is_decimal(c) {
        Ok(LexerView { state: LexerState::Number { decimal: false }, buffer: l.buffer.push(c), ..l })
    } else if c == ' ' || c == '\t' || c == '\n' {
        Ok(LexerView { state: LexerState::NoState, ..l })
    } else {
        match character_token(c) {
            Some(token) => if starts_sequence(c) {
                Ok(LexerView { state: LexerState::OperatorDisambiguate { first: c }, ..l })
            } else {
                Ok(
                    LexerView {
                        state: LexerState::NoState,
                        tokens: l.tokens.push(TokenView::Fixed(token)),
                        ..l
                    },
                )
            },
            None => Err(LexerError::UnknownCharacter(c)),
        }
    }
}

/// The lexer with the characters it holds made a token.
pub open spec fn flush(l: LexerView, token: TokenView) -> LexerView {
    LexerView { state: LexerState::NoState, buffer: Seq::empty(), tokens: l.tokens.push(token) }
}

/// The token of two characters that start with `first`, if they make one.
pub open spec fn pair_token(first: char, c: char) -> Option<Token> {
    if first == '<' && c == '>' {
        Some(Token::NotEqual)
    } else if first == '<' && c == '=' {
        Some(Token::LessThanOrEqual)
    } else if first == '>' && c == '=' {
        Some(Token::GreaterThanOrEqual)
    } else if first == '|' && c == '|' {
        Some(Token::DoublePipe)
    } else {
        None
    }
}

/// The tokens with the token of one character behind them, where the
/// character is one.
pub open spec fn with_character(tokens: Seq<TokenView>, c: char) -> Seq<TokenView> {
    match character_token(c) {
        Some(t) => tokens.push(TokenView::Fixed(t)),
        None => tokens,
    }
}

/// The lexer after one more character, or after the end of the text
/// (`None`). A word, a number and an operator end before the first
/// character that does not belong to them; that character is then read
/// as one between tokens. Comments run from `--` to the end of the line
/// and from `/*` to `*/`.
pub open spec fn lex_step(l: LexerView, c: Option<char>) -> Result<LexerView, LexerError> {
    match l.state {
        LexerState::NoState => match c {
            Some(c) => no_state_step(l, c),
            None => Ok(l),
        },
        LexerState::Word => match c {
            Some(c) => if starts_word(c) || is_decimal(c) {
                Ok(LexerView { buffer: l.buffer.push(c), ..l })
            } else {
                no_state_step(flush(l, word_token(l.buffer)), c)
            },
            None => Ok(flush(l, word_token(l.buffer))),
        },
        LexerState::Backtick => match c {
            Some(c) => if c == '`' {
                Ok(flush(l, TokenView::Ident(l.buffer)))
            } else {
                Ok(LexerView { buffer: l.buffer.push(c), ..l })
            },
            None => Err(LexerError::UnfinishedBacktick),
        },
        LexerState::Apostrophe { escaping } => match c {
            Some(c) => if !escaping && c == '\'' {
                Ok(flush(l, TokenView::StringLiteral(l.buffer)))
            } else if !escaping && c == '\\' {
                Ok(LexerView { state: LexerState::Apostrophe { escaping: true }, ..l })
            } else {
                Ok(
                    LexerView {
                        state: LexerState::Apostrophe { escaping: false },
                        buffer: l.buffer.push(c),
                        ..l
                    },
                )
            },
            None => Err(LexerError::UnfinishedApostrophe),
        },
        LexerState::Number { decimal } => match c {
            Some(c) => if is_decimal(c) {
                Ok(LexerView { buffer: l.buffer.push(c), ..l })
            } else if c == '.' && !decimal {
                Ok(
                    LexerView {
                        state: LexerState::Number { decimal: true },
                        buffer: l.buffer.push(c),
                        ..l
                    },
                )
            } else {
                no_state_step(flush(l, TokenView::Number(l.buffer)), c)
            },
            None => Ok(flush(l, TokenView::Number(l.buffer))),
        },
        LexerState::OperatorDisambiguate { first } => match c {
            Some(c) => match pair_token(first, c) {
                Some(t) => Ok(
                    LexerView {
                        state: LexerState::NoState,
                        tokens: l.tokens.push(TokenView::Fixed(t)),
                        ..l
                    },
                ),
                None => if first == '-' && c == '-' {
                    Ok(LexerView { state: LexerState::LineComment, ..l })
                } else if first == '/' && c == '*' {
                    Ok(
                        LexerView {
                            state: LexerState::BlockComment { was_prev_char_asterisk: false },
                            ..l
                        },
                    )
                } else {
                    no_state_step(
                        LexerView {
                            state: LexerState::NoState,
                            tokens: with_character(l.tokens, first),
                            ..l
                        },
                        c,
                    )
                },
            },
            None => Ok(
                LexerView {
                    state: LexerState::NoState,
                    tokens: with_character(l.tokens, first),
                    ..l
                },
            ),
        },
        LexerState::LineComment => if c == Some('\n') {
            Ok(LexerView { state: LexerState::NoState, ..l })
        } else {
            Ok(l)
        },
        LexerState::BlockComment { was_prev_char_asterisk } => if was_prev_char_asterisk && c
            == Some('/') {
            Ok(LexerView { state: LexerState::NoState, ..l })
        } else {
            Ok(
                LexerView {
                    state: LexerState::BlockComment { was_prev_char_asterisk: c == Some('*') },
                    ..l
                },
            )
        },
    }
}

/// The lexer after the characters of a text from `from` on.
pub open spec fn lex_from(l: LexerView, text: Seq<char>, from: int) -> Result<
    LexerView,
    LexerError,
>
    decreases text.len() - from,
{
    if from < 0 || from >= text.len() {
        Ok(l)
    } else {
        match lex_step(l, Some(text[from])) {
            Ok(next) => lex_from(next, text, from + 1),
            Err(e) => Err(e),
        }
    }
}

/// The lexer before any character.
pub open spec fn lexer_start() -> LexerView {
    LexerView { state: LexerState::NoState, buffer: Seq::empty(), tokens: Seq::empty() }
}

/// The tokens of a text.
pub open spec fn lex(text: Seq<char>) -> Result<Seq<TokenView>, LexerError> {
    match lex_from(lexer_start(), text, 0) {
        Ok(l) => match lex_step(l, None) {
            Ok(end) => Ok(end.tokens),
            Err(e) => Err(e),
        },
        Err(e) => Err(e),
    }
}

/// What a step of the lexer gave.
pub open spec fn step_outcome(r: Result<(), LexerError>, l: Lexer) -> Result<
    LexerView,
    LexerError,
> {
    match r {
        Ok(_) => Ok(l@),
        Err(e) => Err(e),
    }
}

impl Lexer {
    /// The lexer before any character.
    pub fn new() -> (r: Lexer)
        ensures
            r@ == lexer_start(),
    {
        let r = Lexer { state: LexerState::NoState, string_buffer: String::new(), tokens: Vec::new() };
        proof {
            assert(r@.tokens =~= Seq::<TokenView>::empty());
        }
        r
    }

    /// Whether the lexer is between tokens.
    pub fn is_no_state(&self) -> (r: bool)
        ensures
            r == (self.state is NoState),
    {
        match self.state {
            LexerState::NoState => true,
            _ => false,
        }
    }

    fn push_token(&mut self, token: Token)
        ensures
            final(self)@ == (LexerView { tokens: old(self)@.tokens.push(token@), ..old(self)@ }),
    {
        self.tokens.push(token);
        proof {
            assert(tokens_view(self.tokens@) =~= tokens_view(old(self).tokens@).push(token@));
        }
    }

    fn no_state(&mut self, c: char) -> (r: Result<(), LexerError>)
        ensures
            step_outcome(r, *final(self)) == no_state_step(old(self)@, c),
    {
        if ('a' <= c && c <= 'z') || ('A' <= c && c <= 'Z') || c == '_' {
            self.string_buffer.push(c);
            self.state = LexerState::Word;
            Ok(())
        } else if c == '`' {
            self.state = LexerState::Backtick;
            Ok(())
        } else if c == '\'' {
            // string literal
            self.state = LexerState::Apostrophe { escaping: false };
            Ok(())
        } else if '0' <= c && c <= '9' {
            self.string_buffer.push(c);
            self.state = LexerState::Number { decimal: false };
            Ok(())
        } else if c == ' ' || c == '\t' || c == '\n' {
            // whitespace
            self.state = LexerState::NoState;
            Ok(())
        } else {
            match character_to_token(c) {
                Some(token) => {
                    if c == '<' || c == '>' || c == '-' || c == '|' || c == '/' {
                        self.state = LexerState::OperatorDisambiguate { first: c };
                    } else {
                        self.state = LexerState::NoState;
                        self.push_token(token);
                    }
                    Ok(())
                },
                None => {
                    // unknown character
                    Err(LexerError::UnknownCharacter(c))
                },
            }
        }
    }

    fn move_string_buffer(&mut self) -> (r: String)
        ensures
            r@ == old(self)@.buffer,
            final(self)@ == (LexerView { buffer: Seq::empty(), ..old(self)@ }),
    {
        let mut buffer = String::new();
        core::mem::swap(&mut buffer, &mut self.string_buffer);
        buffer
    }

    fn push_character_token(&mut self, first: char)
        ensures
            final(self)@ == (LexerView {
                state: LexerState::NoState,
                tokens: with_character(old(self)@.tokens, first),
                ..old(self)@
            }),
    {
        self.state = LexerState::NoState;
        match character_to_token(first) {
            Some(t) => {
                self.push_token(t);
            },
            None => {},
        }
    }

    /// Reads one more character, or the end of the text (`None`).
    pub fn feed_character(&mut self, c: Option<char>) -> (r: Result<(), LexerError>)
        ensures
            step_outcome(r, *final(self)) == lex_step(old(self)@, c),
    {
        match self.state {
            LexerState::NoState => match c {
                Some(c) => self.no_state(c),
                None => Ok(()),
            },
            LexerState::Word => match c {
                Some(c) => {
                    if ('a' <= c && c <= 'z') || ('A' <= c && c <= 'Z') || c == '_' || ('0' <= c
                        && c <= '9') {
                        self.string_buffer.push(c);
                        Ok(())
                    } else {
                        let buffer = self.move_string_buffer();
                        self.state = LexerState::NoState;
                        self.push_token(word_to_token(buffer));
                        self.no_state(c)
                    }
                },
                None => {
                    let buffer = self.move_string_buffer();
                    self.state = LexerState::NoState;
                    self.push_token(word_to_token(buffer));
                    Ok(())
                },
            },
            LexerState::Backtick => match c {
                Some(c) => {
                    if c == '`' {
                        let buffer = self.move_string_buffer();
                        self.state = LexerState::NoState;
                        self.push_token(Token::Ident(buffer));
                    } else {
                        self.string_buffer.push(c);
                    }
                    Ok(())
                },
                None => Err(LexerError::UnfinishedBacktick),
            },
            LexerState::Apostrophe { escaping } => match c {
                Some(c) => {
                    if !escaping && c == '\'' {
                        // unescaped apostrophe
                        let buffer = self.move_string_buffer();
                        self.state = LexerState::NoState;
                        self.push_token(Token::StringLiteral(buffer));
                    } else if !escaping && c == '\\' {
                        // unescaped backslash
                        self.state = LexerState::Apostrophe { escaping: true };
                    } else {
                        self.string_buffer.push(c);
                        self.state = LexerState::Apostrophe { escaping: false };
                    }
                    Ok(())
                },
                None => Err(LexerError::UnfinishedApostrophe),
            },
            LexerState::Number { decimal } => match c {
                Some(c) => {
                    if '0' <= c && c <= '9' {
                        self.string_buffer.push(c);
                        Ok(())
                    } else if c == '.' && !decimal {
                        // Add a decimal point. None has been added yet.
                        self.string_buffer.push(c);
                        self.state = LexerState::Number { decimal: true };
                        Ok(())
                    } else {
                        let buffer = self.move_string_buffer();
                        self.state = LexerState::NoState;
                        self.push_token(Token::Number(buffer));
                        self.no_state(c)
                    }
                },
                None => {
                    let buffer = self.move_string_buffer();
                    self.state = LexerState::NoState;
                    self.push_token(Token::Number(buffer));
                    Ok(())
                },
            },
            LexerState::OperatorDisambiguate { first } => match c {
                Some(c) => {
                    if first == '<' && c == '>' {
                        self.state = LexerState::NoState;
                        self.push_token(Token::NotEqual);
                        Ok(())
                    } else if first == '<' && c == '=' {
                        self.state = LexerState::NoState;
                        self.push_token(Token::LessThanOrEqual);
                        Ok(())
                    } else if first == '>' && c == '=' {
                        self.state = LexerState::NoState;
                        self.push_token(Token::GreaterThanOrEqual);
                        Ok(())
                    } else if first == '|' && c == '|' {
                        self.state = LexerState::NoState;
                        self.push_token(Token::DoublePipe);
                        Ok(())
                    } else if first == '-' && c == '-' {
                        self.state = LexerState::LineComment;
                        Ok(())
                    } else if first == '/' && c == '*' {
                        self.state = LexerState::BlockComment { was_prev_char_asterisk: false };
                        Ok(())
                    } else {
                        self.push_character_token(first);
                        self.no_state(c)
                    }
                },
                None => {
                    self.push_character_token(first);
                    Ok(())
                },
            },
            LexerState::LineComment => {
                match c {
                    Some(c) => {
                        if c == '\n' {
                            self.state = LexerState::NoState;
                        }
                    },
                    None => {},
                }
                Ok(())
            },
            LexerState::BlockComment { was_prev_char_asterisk } => {
                match c {
                    Some(c) => {
                        if was_prev_char_asterisk && c == '/' {
                            self.state = LexerState::NoState;
                        } else {
                            self.state = LexerState::BlockComment {
                                was_prev_char_asterisk: c == '*',
                            };
                        }
                    },
                    None => {
                        self.state = LexerState::BlockComment { was_prev_char_asterisk: false };
                    },
                }
                Ok(())
            },
        }
    }

    /// Reads the characters of a text.
    pub fn feed_characters(&mut self, text: &str) -> (r: Result<(), LexerError>)
        ensures
            step_outcome(r, *final(self)) == lex_from(old(self)@, text@, 0),
    {
        let chars = chars_of(text);
        let mut i: usize = 0;
        while i < chars.len()
            invariant
                i <= chars@.len(),
                chars@ == text@,
                lex_from(old(self)@, text@, 0) == lex_from(self@, text@, i as int),
            decreases chars@.len() - i,
        {
            match self.feed_character(Some(chars[i])) {
                Ok(_) => {},
                Err(e) => {
                    return Err(e);
                },
            }
            i = i + 1;
        }
        Ok(())
    }
}

/// The tokens of a text.
pub fn parse(sql: &str) -> (r: Result<Vec<Token>, LexerError>)
    ensures
        match r {
            Ok(tokens) => lex(sql@) == Ok::<Seq<TokenView>, LexerError>(tokens_view(tokens@)),
            Err(e) => lex(sql@) == Err::<Seq<TokenView>, LexerError>(e),
        },
{
    let mut lexer = Lexer::new();
    match lexer.feed_characters(sql) {
        Ok(_) => {},
        Err(e) => {
            return Err(e);
        },
    }
    match lexer.feed_character(None) {
        Ok(_) => Ok(lexer.tokens),
        Err(e) => Err(e),
    }
}

} // verus!
