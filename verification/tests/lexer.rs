use llamadb::sqlsyntax::lexer::{parse, Lexer, LexerError, Token};
use llamadb::sqlsyntax::lexer::Token::{
    As, Asterisk, By, Comma, Dot, Equal, ForwardSlash, From, GreaterThan, GreaterThanOrEqual,
    Group, Ident, Join, Left, LeftParen, LessThan, Minus, NotEqual, On, Plus, RightParen, Select,
    Semicolon, StringLiteral, Where,
};

fn id(value: &str) -> Token {
    Token::Ident(value.to_string())
}

fn number(value: &str) -> Token {
    Token::Number(value.to_string())
}

#[test]
fn test_sql_lexer_dontconfuseidentswithkeywords() {
    // Not: AS, Ident("df")
    assert_eq!(parse("asdf").unwrap(), vec![Ident("asdf".to_string())]);
}

#[test]
fn test_sql_lexer_escape() {
    // Escaped apostrophe
    assert_eq!(parse(r"'\''").unwrap(), vec![StringLiteral("'".to_string())]);
}

#[test]
fn test_sql_lexer_numbers() {
    assert_eq!(parse("12345").unwrap(), vec![number("12345")]);
    assert_eq!(parse("0.25").unwrap(), vec![number("0.25")]);
    assert_eq!(parse("0.25 + -0.25").unwrap(), vec![number("0.25"), Plus, Minus, number("0.25")]);
    assert_eq!(parse("-0.25 + 0.25").unwrap(), vec![Minus, number("0.25"), Plus, number("0.25")]);
    assert_eq!(parse("- 0.25 - -0.25").unwrap(), vec![Minus, number("0.25"), Minus, Minus, number("0.25")]);
    assert_eq!(parse("- 0.25 --0.25").unwrap(), vec![Minus, number("0.25")]);
    assert_eq!(parse("0.25 -0.25").unwrap(), vec![number("0.25"), Minus, number("0.25")]);
}

#[test]
fn test_sql_lexer_query1() {
    assert_eq!(parse(" SeLECT a,    b as alias1 , c alias2, d ` alias three ` fRoM table1 WHERE a='Hello World'; ").unwrap(),
        vec![
            Select, id("a"), Comma, id("b"), As, id("alias1"), Comma,
            id("c"), id("alias2"), Comma, id("d"), id(" alias three "),
            From, id("table1"),
            Where, id("a"), Equal, StringLiteral("Hello World".to_string()), Semicolon
        ]
    );
}

#[test]
fn test_sql_lexer_query2() {
    let query = r"
    -- Get employee count from each department
    SELECT d.id departmentId, count(e.id) employeeCount
    FROM department d
    LEFT JOIN employee e ON e.departmentId = d.id
    GROUP BY departmentId;
    ";

    assert_eq!(parse(query).unwrap(), vec![
        Select, id("d"), Dot, id("id"), id("departmentId"), Comma, id("count"), LeftParen, id("e"), Dot, id("id"), RightParen, id("employeeCount"),
        From, id("department"), id("d"),
        Left, Join, id("employee"), id("e"), On, id("e"), Dot, id("departmentId"), Equal, id("d"), Dot, id("id"),
        Group, By, id("departmentId"), Semicolon
    ]);
}

#[test]
fn test_sql_lexer_operators() {
    assert_eq!(parse("> = >=< =><").unwrap(),
        vec![
            GreaterThan, Equal, GreaterThanOrEqual, LessThan, Equal, GreaterThan, LessThan
        ]
    );

    assert_eq!(parse(" ><>> >< >").unwrap(),
        vec![
            GreaterThan, NotEqual, GreaterThan, GreaterThan, LessThan, GreaterThan
        ]
    );
}

#[test]
fn test_sql_lexer_blockcomment() {
    assert_eq!(parse("hello/*/a/**/,/*there, */world").unwrap(), vec![
        id("hello"), Comma, id("world")
    ]);

    assert_eq!(parse("/ */").unwrap(), vec![ForwardSlash, Asterisk, ForwardSlash]);

    assert_eq!(parse("/**/").unwrap(), vec![]);

    assert_eq!(parse("a/* test\ntest** /\nb*/c").unwrap(), vec![id("a"), id("c")]);
}

#[test]
fn test_sql_lexer_errors() {
    assert_eq!(parse("a # b").unwrap_err(), LexerError::UnknownCharacter('#'));
    assert_eq!(parse("`abc").unwrap_err(), LexerError::UnfinishedBacktick);
    assert_eq!(parse("'abc").unwrap_err(), LexerError::UnfinishedApostrophe);
    assert_eq!(parse("1.2.3").unwrap(), vec![number("1.2"), Dot, number("3")]);
    assert_eq!(parse("a||b|c").unwrap(), vec![id("a"), Token::DoublePipe, id("b"), Token::Pipe, id("c")]);
}

#[test]
fn test_sql_lexer_feeds_lines() {
    let mut lexer = Lexer::new();
    assert!(lexer.is_no_state());
    lexer.feed_characters("select 'ab").unwrap();
    assert!(!lexer.is_no_state());
    assert_eq!(lexer.tokens, vec![Select]);
    lexer.feed_character(Some('\n')).unwrap();
    lexer.feed_characters("c';").unwrap();
    assert!(lexer.is_no_state());
    assert_eq!(lexer.tokens, vec![Select, StringLiteral("ab\nc".to_string()), Semicolon]);
}
