//! The grammar of statements: what each rule reads from the tokens at a
//! place, and where it stops.

use vstd::prelude::*;
use crate::sqlsyntax::ast::{BinaryOp, JoinOperator, Order, UnaryOp};
use crate::sqlsyntax::lexer::{Token, TokenView};
use crate::sqlsyntax::views::{
    CreateStatementView, CreateTableColumnConstraintTypeView, CreateTableColumnConstraintView,
    CreateTableColumnView, CreateTableStatementView, ExplainStatementView, ExpressionView,
    FromView, InsertSourceView, InsertStatementView, JoinView, OrderingTermView, SelectColumnView,
    SelectStatementView, StatementView, TableOrSubqueryView, TableView,
};

verus! {

/// Why a rule failed: whether it failed at its start, what it expected and
/// what it found.
pub type ErrorView = (bool, Seq<char>, Option<TokenView>);

/// What a rule read and where it stopped, or why it failed.
pub type Parsed<T> = Result<(T, int), ErrorView>;

/// The token at a place, if there is one.
pub open spec fn token_at(tokens: Seq<TokenView>, pos: int) -> Option<TokenView> {
    if 0 <= pos < tokens.len() {
        Some(tokens[pos])
    } else {
        None
    }
}

/// The error of a rule that finds something else than it starts with.
pub open spec fn expecting(tokens: Seq<TokenView>, pos: int, message: Seq<char>) -> ErrorView {
    (true, message, token_at(tokens, pos))
}

/// Whether the given token stands at the place.
pub open spec fn has_token(tokens: Seq<TokenView>, pos: int, token: Token) -> bool {
    token_at(tokens, pos) == Some(token@)
}

/// The result of a rule that is not the first of its rule: a failure at
/// its start is a failure of the whole.
pub open spec fn not_first<T>(r: Parsed<T>) -> Parsed<T> {
    match r {
        Ok(x) => Ok(x),
        Err(e) => Err((false, e.1, e.2)),
    }
}

/// The result of a rule that started at `pos`, which has to stop behind
/// `pos` and within the tokens.
pub open spec fn forward<T>(tokens: Seq<TokenView>, pos: int, r: Parsed<T>) -> Parsed<T> {
    match r {
        Ok((v, p)) => if pos < p <= tokens.len() {
            r
        } else {
            Err((false, Seq::empty(), None))
        },
        Err(e) => r,
    }
}

/// Reads the given token.
pub open spec fn token_rule(tokens: Seq<TokenView>, pos: int, token: Token, message: Seq<char>)
    -> Parsed<()> {
    if has_token(tokens, pos, token) {
        Ok(((), pos + 1))
    } else {
        Err(expecting(tokens, pos, message))
    }
}

/// Reads an identifier.
pub open spec fn ident_rule(tokens: Seq<TokenView>, pos: int, message: Seq<char>) -> Parsed<
    Seq<char>,
> {
    match token_at(tokens, pos) {
        Some(TokenView::Ident(s)) => Ok((s, pos + 1)),
        _ => Err(expecting(tokens, pos, message)),
    }
}

/// Reads a number.
pub open spec fn number_rule(tokens: Seq<TokenView>, pos: int, message: Seq<char>) -> Parsed<
    Seq<char>,
> {
    match token_at(tokens, pos) {
        Some(TokenView::Number(s)) => Ok((s, pos + 1)),
        _ => Err(expecting(tokens, pos, message)),
    }
}

/// More identifiers, each behind a comma.
pub open spec fn ident_list_more(tokens: Seq<TokenView>, pos: int, done: Seq<Seq<char>>) -> Parsed<
    Seq<Seq<char>>,
>
    decreases tokens.len() - pos,
{
    if has_token(tokens, pos, Token::Comma) {
        match not_first(ident_rule(tokens, pos + 1, "identifier"@)) {
            Ok((v, p)) => ident_list_more(tokens, p, done.push(v)),
            Err(e) => Err(e),
        }
    } else {
        Ok((done, pos))
    }
}

/// Identifiers with commas between them, in brackets.
pub open spec fn ident_list_rule(tokens: Seq<TokenView>, pos: int) -> Parsed<Seq<Seq<char>>> {
    match token_rule(tokens, pos, Token::LeftParen, "("@) {
        Ok((_, q1)) => match not_first(ident_rule(tokens, q1, "identifier"@)) {
            Ok((first, q2)) => match ident_list_more(tokens, q2, seq![first]) {
                Ok((list, q3)) => match not_first(
                    token_rule(tokens, q3, Token::RightParen, ")"@),
                ) {
                    Ok((_, q4)) => Ok((list, q4)),
                    Err(e) => Err(e),
                },
                Err(e) => Err(e),
            },
            Err(e) => Err(e),
        },
        Err(e) => Err(e),
    }
}

/// A list of identifiers in brackets where there is one.
pub open spec fn ident_list_option(tokens: Seq<TokenView>, pos: int) -> Parsed<
    Option<Seq<Seq<char>>>,
> {
    match ident_list_rule(tokens, pos) {
        Ok((list, p)) => Ok((Some(list), p)),
        Err(e) => if e.0 {
            Ok((None, pos))
        } else {
            Err(e)
        },
    }
}

/// The operator of two operands that a token stands for.
pub open spec fn binary_op_of_token(token: TokenView) -> Option<BinaryOp> {
    match token {
        TokenView::Fixed(Token::Equal) => Some(BinaryOp::Equal),
        TokenView::Fixed(Token::NotEqual) => Some(BinaryOp::NotEqual),
        TokenView::Fixed(Token::LessThan) => Some(BinaryOp::LessThan),
        TokenView::Fixed(Token::LessThanOrEqual) => Some(BinaryOp::LessThanOrEqual),
        TokenView::Fixed(Token::GreaterThan) => Some(BinaryOp::GreaterThan),
        TokenView::Fixed(Token::GreaterThanOrEqual) => Some(BinaryOp::GreaterThanOrEqual),
        TokenView::Fixed(Token::And) => Some(BinaryOp::And),
        TokenView::Fixed(Token::Or) => Some(BinaryOp::Or),
        TokenView::Fixed(Token::Plus) => Some(BinaryOp::Add),
        TokenView::Fixed(Token::Minus) => Some(BinaryOp::Subtract),
        TokenView::Fixed(Token::Asterisk) => Some(BinaryOp::Multiply),
        TokenView::Fixed(Token::ForwardSlash) => Some(BinaryOp::Divide),
        TokenView::Fixed(Token::Ampersand) => Some(BinaryOp::BitAnd),
        TokenView::Fixed(Token::Pipe) => Some(BinaryOp::BitOr),
        TokenView::Fixed(Token::DoublePipe) => Some(BinaryOp::Concatenate),
        _ => None,
    }
}

/// Reads an operator of two operands.
pub open spec fn binary_op_rule(tokens: Seq<TokenView>, pos: int) -> Parsed<BinaryOp> {
    match token_at(tokens, pos) {
        Some(token) => match binary_op_of_token(token) {
            Some(op) => Ok((op, pos + 1)),
            None => Err(expecting(tokens, pos + 1, "binary operator"@)),
        },
        None => Err(expecting(tokens, pos, "binary operator"@)),
    }
}

/// An alias, with or without `AS` before it.
pub open spec fn as_alias_rule(tokens: Seq<TokenView>, pos: int) -> Parsed<Seq<char>> {
    if has_token(tokens, pos, Token::As) {
        not_first(ident_rule(tokens, pos + 1, "alias after `as` keyword"@))
    } else {
        ident_rule(tokens, pos, "alias name or `as` keyword"@)
    }
}

/// An alias where there is one.
pub open spec fn as_alias_option(tokens: Seq<TokenView>, pos: int) -> Parsed<Option<Seq<char>>> {
    match as_alias_rule(tokens, pos) {
        Ok((alias, p)) => Ok((Some(alias), p)),
        Err(e) => if e.0 {
            Ok((None, pos))
        } else {
            Err(e)
        },
    }
}

/// The name of a table.
pub open spec fn table_rule(tokens: Seq<TokenView>, pos: int) -> Parsed<TableView> {
    match ident_rule(tokens, pos, "table name"@) {
        Ok((table_name, p)) => Ok((TableView { database_name: None, table_name }, p)),
        Err(e) => Err(e),
    }
}

/// `LEFT JOIN`, `LEFT OUTER JOIN` or `INNER JOIN`.
pub open spec fn join_operator_rule(tokens: Seq<TokenView>, pos: int) -> Parsed<JoinOperator> {
    if has_token(tokens, pos, Token::Left) {
        let p = if has_token(tokens, pos + 1, Token::Outer) {
            pos + 2
        } else {
            pos + 1
        };
        match not_first(token_rule(tokens, p, Token::Join, "JOIN after LEFT (OUTER)"@)) {
            Ok((_, q2)) => Ok((JoinOperator::Left, q2)),
            Err(e) => Err(e),
        }
    } else if has_token(tokens, pos, Token::Inner) {
        match not_first(token_rule(tokens, pos + 1, Token::Join, "JOIN after INNER"@)) {
            Ok((_, q2)) => Ok((JoinOperator::Inner, q2)),
            Err(e) => Err(e),
        }
    } else {
        Err(expecting(tokens, pos, "Join operator (LEFT or INNER)"@))
    }
}

/// An expression: operands with operators of two operands between them.
pub open spec fn expression_rule(tokens: Seq<TokenView>, pos: int) -> Parsed<ExpressionView>
    decreases tokens.len() - pos, 3nat,
{
    precedence_rule(tokens, pos, 0)
}

/// An operand, and then operators with their right operands as long as
/// the operators bind at least as tightly as `min_precedence`.
pub open spec fn precedence_rule(tokens: Seq<TokenView>, pos: int, min_precedence: u8) -> Parsed<
    ExpressionView,
>
    decreases tokens.len() - pos, 2nat,
{
    match forward(tokens, pos, beginning_rule(tokens, pos)) {
        Ok((expr, p)) => precedence_more(tokens, p, min_precedence, expr),
        Err(e) => Err(e),
    }
}

/// The expression that `expr` is the start of: `expr` with the operators
/// that follow it and bind at least as tightly as `min_precedence`, each
/// with a right operand of operators that bind more tightly.
pub open spec fn precedence_more(
    tokens: Seq<TokenView>,
    pos: int,
    min_precedence: u8,
    expr: ExpressionView,
) -> Parsed<ExpressionView>
    decreases tokens.len() - pos, 4nat,
{
    match binary_op_rule(tokens, pos) {
        Ok((op, q1)) => if op.binding() >= min_precedence {
            match not_first(
                forward(tokens, q1, precedence_rule(tokens, q1, (op.binding() + 1) as u8)),
            ) {
                Ok((rhs, q2)) => precedence_more(
                    tokens,
                    q2,
                    min_precedence,
                    ExpressionView::BinaryOp { lhs: Box::new(expr), rhs: Box::new(rhs), op },
                ),
                Err(e) => Err(e),
            }
        } else {
            Ok((expr, pos))
        },
        Err(_) => Ok((expr, pos)),
    }
}

/// What follows the name of a function or of a column.
pub open spec fn after_ident_rule(tokens: Seq<TokenView>, pos: int, ident: Seq<char>) -> Parsed<
    ExpressionView,
>
    decreases tokens.len() - pos, 0nat,
{
    if has_token(tokens, pos, Token::LeftParen) {
        if has_token(tokens, pos + 1, Token::Asterisk) {
            match not_first(
                token_rule(
                    tokens,
                    pos + 2,
                    Token::RightParen,
                    ") after aggregate asterisk. e.g. (*)"@,
                ),
            ) {
                Ok((_, p)) => Ok((ExpressionView::FunctionCallAggregateAll { name: ident }, p)),
                Err(e) => Err(e),
            }
        } else {
            match not_first(expression_list_rule(tokens, pos + 1)) {
                Ok((arguments, p)) => match not_first(
                    token_rule(tokens, p, Token::RightParen, ") after function arguments"@),
                ) {
                    Ok((_, q2)) => Ok(
                        (ExpressionView::FunctionCall { name: ident, arguments }, q2),
                    ),
                    Err(e) => Err(e),
                },
                Err(e) => Err(e),
            }
        }
    } else if has_token(tokens, pos, Token::Dot) {
        match not_first(ident_rule(tokens, pos + 1, "ident after ."@)) {
            Ok((ident2, p)) => Ok((ExpressionView::IdentMember(ident, ident2), p)),
            Err(e) => Err(e),
        }
    } else {
        Ok((ExpressionView::Ident(ident), pos))
    }
}

/// What stands between brackets where an operand is expected: a subquery
/// or an expression.
pub open spec fn in_parens_rule(tokens: Seq<TokenView>, pos: int) -> Parsed<ExpressionView>
    decreases tokens.len() - pos, 9nat,
{
    match select_rule(tokens, pos) {
        Ok((subquery, p)) => match token_rule(
            tokens,
            p,
            Token::RightParen,
            ") after subquery"@,
        ) {
            Ok((_, q2)) => Ok((ExpressionView::Subquery(Box::new(subquery)), q2)),
            Err(e) => Err(e),
        },
        Err(e) => if e.0 {
            match expression_rule(tokens, pos) {
                Ok((inner, p)) => match token_rule(
                    tokens,
                    p,
                    Token::RightParen,
                    ") after expression"@,
                ) {
                    Ok((_, q2)) => Ok((inner, q2)),
                    Err(e) => Err(e),
                },
                Err(e) => if e.0 {
                    Err(expecting(tokens, pos, "expression or subquery after ("@))
                } else {
                    Err(e)
                },
            }
        } else {
            Err(e)
        },
    }
}

/// An operand: a signed operand, an expression or a subquery in brackets,
/// `NULL`, a function call, a column, a string or a number.
pub open spec fn beginning_rule(tokens: Seq<TokenView>, pos: int) -> Parsed<ExpressionView>
    decreases tokens.len() - pos, 1nat,
{
    if has_token(tokens, pos, Token::Plus) {
        not_first(precedence_rule(tokens, pos + 1, 6))
    } else if has_token(tokens, pos, Token::Minus) {
        match not_first(precedence_rule(tokens, pos + 1, 6)) {
            Ok((e, p)) => Ok(
                (ExpressionView::UnaryOp { expr: Box::new(e), op: UnaryOp::Negate }, p),
            ),
            Err(e) => Err(e),
        }
    } else if has_token(tokens, pos, Token::LeftParen) {
        in_parens_rule(tokens, pos + 1)
    } else if has_token(tokens, pos, Token::Null) {
        Ok((ExpressionView::Null, pos + 1))
    } else {
        match token_at(tokens, pos) {
            Some(TokenView::Ident(ident)) => after_ident_rule(tokens, pos + 1, ident),
            Some(TokenView::StringLiteral(s)) => Ok((ExpressionView::StringLiteral(s), pos + 1)),
            Some(TokenView::Number(s)) => Ok((ExpressionView::Number(s), pos + 1)),
            _ => Err(expecting(tokens, pos, "identifier or number"@)),
        }
    }
}

/// More expressions, each behind a comma.
pub open spec fn expression_list_more(
    tokens: Seq<TokenView>,
    pos: int,
    done: Seq<ExpressionView>,
) -> Parsed<Seq<ExpressionView>>
    decreases tokens.len() - pos, 0nat,
{
    if has_token(tokens, pos, Token::Comma) {
        match not_first(forward(tokens, pos + 1, expression_rule(tokens, pos + 1))) {
            Ok((v, p)) => expression_list_more(tokens, p, done.push(v)),
            Err(e) => Err(e),
        }
    } else {
        Ok((done, pos))
    }
}

/// Expressions with commas between them.
pub open spec fn expression_list_rule(tokens: Seq<TokenView>, pos: int) -> Parsed<
    Seq<ExpressionView>,
>
    decreases tokens.len() - pos, 4nat,
{
    match forward(tokens, pos, expression_rule(tokens, pos)) {
        Ok((first, p)) => expression_list_more(tokens, p, seq![first]),
        Err(e) => Err(e),
    }
}

/// Expressions with commas between them, in brackets.
pub open spec fn parens_expression_list_rule(tokens: Seq<TokenView>, pos: int) -> Parsed<
    Seq<ExpressionView>,
>
    decreases tokens.len() - pos, 0nat,
{
    match token_rule(tokens, pos, Token::LeftParen, "("@) {
        Ok((_, q1)) => match not_first(expression_list_rule(tokens, q1)) {
            Ok((list, q2)) => match not_first(token_rule(tokens, q2, Token::RightParen, ")"@)) {
                Ok((_, q3)) => Ok((list, q3)),
                Err(e) => Err(e),
            },
            Err(e) => Err(e),
        },
        Err(e) => Err(e),
    }
}

/// A `SELECT` in brackets.
pub open spec fn parens_select_rule(tokens: Seq<TokenView>, pos: int) -> Parsed<SelectStatementView>
    decreases tokens.len() - pos, 0nat,
{
    match token_rule(tokens, pos, Token::LeftParen, "("@) {
        Ok((_, q1)) => match not_first(select_rule(tokens, q1)) {
            Ok((select, q2)) => match not_first(token_rule(tokens, q2, Token::RightParen, ")"@)) {
                Ok((_, q3)) => Ok((select, q3)),
                Err(e) => Err(e),
            },
            Err(e) => Err(e),
        },
        Err(e) => Err(e),
    }
}

/// A subquery in brackets with its alias, or a table with or without
/// one.
pub open spec fn table_or_subquery_rule(tokens: Seq<TokenView>, pos: int) -> Parsed<
    TableOrSubqueryView,
>
    decreases tokens.len() - pos, 2nat,
{
    match parens_select_rule(tokens, pos) {
        Ok((select, p)) => match not_first(as_alias_rule(tokens, p)) {
            Ok((alias, q2)) => Ok(
                (TableOrSubqueryView::Subquery { subquery: Box::new(select), alias }, q2),
            ),
            Err(e) => Err(e),
        },
        Err(e) => if e.0 {
            match table_rule(tokens, pos) {
                Ok((table, p)) => match not_first(as_alias_option(tokens, p)) {
                    Ok((alias, q2)) => Ok((TableOrSubqueryView::Table { table, alias }, q2)),
                    Err(e) => Err(e),
                },
                Err(e) => if e.0 {
                    Err(expecting(tokens, pos, "subquery or table name"@))
                } else {
                    Err(e)
                },
            }
        } else {
            Err(e)
        },
    }
}

/// More tables and subqueries, each behind a comma.
pub open spec fn table_list_more(
    tokens: Seq<TokenView>,
    pos: int,
    done: Seq<TableOrSubqueryView>,
) -> Parsed<Seq<TableOrSubqueryView>>
    decreases tokens.len() - pos, 0nat,
{
    if has_token(tokens, pos, Token::Comma) {
        match not_first(forward(tokens, pos + 1, table_or_subquery_rule(tokens, pos + 1))) {
            Ok((v, p)) => table_list_more(tokens, p, done.push(v)),
            Err(e) => Err(e),
        }
    } else {
        Ok((done, pos))
    }
}

/// Tables and subqueries with commas between them.
pub open spec fn table_list_rule(tokens: Seq<TokenView>, pos: int) -> Parsed<
    Seq<TableOrSubqueryView>,
>
    decreases tokens.len() - pos, 3nat,
{
    match forward(tokens, pos, table_or_subquery_rule(tokens, pos)) {
        Ok((first, p)) => table_list_more(tokens, p, seq![first]),
        Err(e) => Err(e),
    }
}

/// `*`, or an expression with or without an alias.
pub open spec fn select_column_rule(tokens: Seq<TokenView>, pos: int) -> Parsed<SelectColumnView>
    decreases tokens.len() - pos, 4nat,
{
    if has_token(tokens, pos, Token::Asterisk) {
        Ok((SelectColumnView::AllColumns, pos + 1))
    } else {
        match expression_rule(tokens, pos) {
            Ok((expr, p)) => match not_first(as_alias_option(tokens, p)) {
                Ok((alias, q2)) => Ok((SelectColumnView::Expr { expr, alias }, q2)),
                Err(e) => Err(e),
            },
            Err(e) => if e.0 {
                Err(expecting(tokens, pos, "* or expression for SELECT column"@))
            } else {
                Err(e)
            },
        }
    }
}

/// More selected columns, each behind a comma.
pub open spec fn select_column_list_more(
    tokens: Seq<TokenView>,
    pos: int,
    done: Seq<SelectColumnView>,
) -> Parsed<Seq<SelectColumnView>>
    decreases tokens.len() - pos, 0nat,
{
    if has_token(tokens, pos, Token::Comma) {
        match not_first(forward(tokens, pos + 1, select_column_rule(tokens, pos + 1))) {
            Ok((v, p)) => select_column_list_more(tokens, p, done.push(v)),
            Err(e) => Err(e),
        }
    } else {
        Ok((done, pos))
    }
}

/// Selected columns with commas between them.
pub open spec fn select_column_list_rule(tokens: Seq<TokenView>, pos: int) -> Parsed<
    Seq<SelectColumnView>,
>
    decreases tokens.len() - pos, 5nat,
{
    match forward(tokens, pos, select_column_rule(tokens, pos)) {
        Ok((first, p)) => select_column_list_more(tokens, p, seq![first]),
        Err(e) => Err(e),
    }
}

/// An expression to order by, with or without `ASC` or `DESC`.
pub open spec fn ordering_term_rule(tokens: Seq<TokenView>, pos: int) -> Parsed<OrderingTermView>
    decreases tokens.len() - pos, 4nat,
{
    match expression_rule(tokens, pos) {
        Ok((expr, p)) => if has_token(tokens, p, Token::Asc) {
            Ok((OrderingTermView { expr, order: Order::Ascending }, p + 1))
        } else if has_token(tokens, p, Token::Desc) {
            Ok((OrderingTermView { expr, order: Order::Descending }, p + 1))
        } else {
            Ok((OrderingTermView { expr, order: Order::Ascending }, p))
        },
        Err(e) => Err(e),
    }
}

/// More expressions to order by, each behind a comma.
pub open spec fn ordering_list_more(
    tokens: Seq<TokenView>,
    pos: int,
    done: Seq<OrderingTermView>,
) -> Parsed<Seq<OrderingTermView>>
    decreases tokens.len() - pos, 0nat,
{
    if has_token(tokens, pos, Token::Comma) {
        match not_first(forward(tokens, pos + 1, ordering_term_rule(tokens, pos + 1))) {
            Ok((v, p)) => ordering_list_more(tokens, p, done.push(v)),
            Err(e) => Err(e),
        }
    } else {
        Ok((done, pos))
    }
}

/// Expressions to order by with commas between them.
pub open spec fn ordering_list_rule(tokens: Seq<TokenView>, pos: int) -> Parsed<
    Seq<OrderingTermView>,
>
    decreases tokens.len() - pos, 5nat,
{
    match forward(tokens, pos, ordering_term_rule(tokens, pos)) {
        Ok((first, p)) => ordering_list_more(tokens, p, seq![first]),
        Err(e) => Err(e),
    }
}

/// A join: its operator, its table and its condition.
pub open spec fn join_rule(tokens: Seq<TokenView>, pos: int) -> Parsed<JoinView>
    decreases tokens.len() - pos, 5nat,
{
    match forward(tokens, pos, join_operator_rule(tokens, pos)) {
        Ok((operator, q1)) => match not_first(
            forward(tokens, q1, table_or_subquery_rule(tokens, q1)),
        ) {
            Ok((table, q2)) => match not_first(token_rule(tokens, q2, Token::On, "ON"@)) {
                Ok((_, q3)) => match not_first(expression_rule(tokens, q3)) {
                    Ok((on, q4)) => Ok((JoinView { operator, table, on }, q4)),
                    Err(e) => Err(e),
                },
                Err(e) => Err(e),
            },
            Err(e) => Err(e),
        },
        Err(e) => Err(e),
    }
}

/// Joins as long as there are any.
pub open spec fn join_series_rule(tokens: Seq<TokenView>, pos: int, done: Seq<JoinView>) -> Parsed<
    Seq<JoinView>,
>
    decreases tokens.len() - pos, 6nat,
{
    match forward(tokens, pos, join_rule(tokens, pos)) {
        Ok((join, p)) => join_series_rule(tokens, p, done.push(join)),
        Err(e) => if e.0 {
            Ok((done, pos))
        } else {
            Err(e)
        },
    }
}

/// A `FROM`: tables with commas between them, or one table with joins.
pub open spec fn from_rule(tokens: Seq<TokenView>, pos: int) -> Parsed<FromView>
    decreases tokens.len() - pos, 0nat,
{
    match token_rule(tokens, pos, Token::From, "FROM"@) {
        Ok((_, q0)) => match not_first(forward(tokens, q0, table_list_rule(tokens, q0))) {
            Ok((tables, q1)) => if tables.len() == 1 {
                match not_first(join_series_rule(tokens, q1, Seq::empty())) {
                    Ok((joins, q2)) => if joins.len() > 0 {
                        Ok((FromView::Join { table: tables[0], joins }, q2))
                    } else {
                        Ok((FromView::Cross(tables), q2))
                    },
                    Err(e) => Err(e),
                }
            } else {
                Ok((FromView::Cross(tables), q1))
            },
            Err(e) => Err(e),
        },
        Err(e) => Err(e),
    }
}

/// The `ORDER BY` of a `SELECT`, where it has one.
pub open spec fn select_order_rule(
    tokens: Seq<TokenView>,
    pos: int,
    result_columns: Seq<SelectColumnView>,
    from: FromView,
    where_expr: Option<ExpressionView>,
    group_by: Seq<ExpressionView>,
    having: Option<ExpressionView>,
) -> Parsed<SelectStatementView>
    decreases tokens.len() - pos, 10nat,
{
    if has_token(tokens, pos, Token::Order) {
        match not_first(token_rule(tokens, pos + 1, Token::By, "BY after ORDER"@)) {
            Ok((_, q1)) => match not_first(ordering_list_rule(tokens, q1)) {
                Ok((order_by, q2)) => Ok(
                    (
                        SelectStatementView {
                            result_columns,
                            from,
                            where_expr,
                            group_by,
                            having,
                            order_by,
                        },
                        q2,
                    ),
                ),
                Err(e) => Err(e),
            },
            Err(e) => Err(e),
        }
    } else {
        Ok(
            (
                SelectStatementView {
                    result_columns,
                    from,
                    where_expr,
                    group_by,
                    having,
                    order_by: Seq::empty(),
                },
                pos,
            ),
        )
    }
}

/// The `GROUP BY` of a `SELECT` with its `HAVING`, where it has them, and
/// what follows.
pub open spec fn select_group_rule(
    tokens: Seq<TokenView>,
    pos: int,
    result_columns: Seq<SelectColumnView>,
    from: FromView,
    where_expr: Option<ExpressionView>,
) -> Parsed<SelectStatementView>
    decreases tokens.len() - pos, 11nat,
{
    if has_token(tokens, pos, Token::Group) {
        match not_first(token_rule(tokens, pos + 1, Token::By, "BY after GROUP"@)) {
            Ok((_, q1)) => match not_first(
                forward(tokens, q1, expression_list_rule(tokens, q1)),
            ) {
                Ok((group_by, q2)) => if has_token(tokens, q2, Token::Having) {
                    match not_first(forward(tokens, q2 + 1, expression_rule(tokens, q2 + 1))) {
                        Ok((having, q3)) => select_order_rule(
                            tokens,
                            q3,
                            result_columns,
                            from,
                            where_expr,
                            group_by,
                            Some(having),
                        ),
                        Err(e) => Err(e),
                    }
                } else {
                    select_order_rule(
                        tokens,
                        q2,
                        result_columns,
                        from,
                        where_expr,
                        group_by,
                        None,
                    )
                },
                Err(e) => Err(e),
            },
            Err(e) => Err(e),
        }
    } else {
        select_order_rule(tokens, pos, result_columns, from, where_expr, Seq::empty(), None)
    }
}

/// The `WHERE` of a `SELECT`, where it has one, and what follows.
pub open spec fn select_where_rule(
    tokens: Seq<TokenView>,
    pos: int,
    result_columns: Seq<SelectColumnView>,
    from: FromView,
) -> Parsed<SelectStatementView>
    decreases tokens.len() - pos, 12nat,
{
    if has_token(tokens, pos, Token::Where) {
        match not_first(forward(tokens, pos + 1, expression_rule(tokens, pos + 1))) {
            Ok((where_expr, p)) => select_group_rule(
                tokens,
                p,
                result_columns,
                from,
                Some(where_expr),
            ),
            Err(e) => Err(e),
        }
    } else {
        select_group_rule(tokens, pos, result_columns, from, None)
    }
}

/// A `SELECT`: its columns, its `FROM`, and then where they are there its
/// `WHERE`, its `GROUP BY` with its `HAVING`, and its `ORDER BY`.
pub open spec fn select_rule(tokens: Seq<TokenView>, pos: int) -> Parsed<SelectStatementView>
    decreases tokens.len() - pos, 0nat,
{
    match token_rule(tokens, pos, Token::Select, "SELECT"@) {
        Ok((_, q0)) => match not_first(
            forward(tokens, q0, select_column_list_rule(tokens, q0)),
        ) {
            Ok((result_columns, q1)) => match not_first(
                forward(tokens, q1, from_rule(tokens, q1)),
            ) {
                Ok((from, q2)) => select_where_rule(tokens, q2, result_columns, from),
                Err(e) => Err(e),
            },
            Err(e) => Err(e),
        },
        Err(e) => Err(e),
    }
}

/// More rows of values, each behind a comma.
pub open spec fn values_more(
    tokens: Seq<TokenView>,
    pos: int,
    done: Seq<Seq<ExpressionView>>,
) -> Parsed<Seq<Seq<ExpressionView>>>
    decreases tokens.len() - pos,
{
    if has_token(tokens, pos, Token::Comma) {
        match not_first(forward(tokens, pos + 1, parens_expression_list_rule(tokens, pos + 1))) {
            Ok((v, p)) => values_more(tokens, p, done.push(v)),
            Err(e) => Err(e),
        }
    } else {
        Ok((done, pos))
    }
}

/// The rows of an `INSERT`: `VALUES` and rows in brackets with commas
/// between them, or a `SELECT`.
pub open spec fn insert_source_rule(tokens: Seq<TokenView>, pos: int) -> Parsed<InsertSourceView> {
    if has_token(tokens, pos, Token::Values) {
        match not_first(forward(tokens, pos + 1, parens_expression_list_rule(tokens, pos + 1))) {
            Ok((first, p)) => match values_more(tokens, p, seq![first]) {
                Ok((rows, q2)) => Ok((InsertSourceView::Values(rows), q2)),
                Err(e) => Err(e),
            },
            Err(e) => Err(e),
        }
    } else {
        match select_rule(tokens, pos) {
            Ok((select, p)) => Ok((InsertSourceView::Select(Box::new(select)), p)),
            Err(e) => if e.0 {
                Err(expecting(tokens, pos, "VALUES or SELECT"@))
            } else {
                Err(e)
            },
        }
    }
}

/// An `INSERT`: its table, the columns it names where it names any, and
/// its rows.
pub open spec fn insert_rule(tokens: Seq<TokenView>, pos: int) -> Parsed<InsertStatementView> {
    match token_rule(tokens, pos, Token::Insert, "INSERT"@) {
        Ok((_, q0)) => match not_first(token_rule(tokens, q0, Token::Into, "INTO"@)) {
            Ok((_, q1)) => match not_first(table_rule(tokens, q1)) {
                Ok((table, q2)) => match not_first(ident_list_option(tokens, q2)) {
                    Ok((into_columns, q3)) => match not_first(insert_source_rule(tokens, q3)) {
                        Ok((source, q4)) => Ok(
                            (InsertStatementView { table, into_columns, source }, q4),
                        ),
                        Err(e) => Err(e),
                    },
                    Err(e) => Err(e),
                },
                Err(e) => Err(e),
            },
            Err(e) => Err(e),
        },
        Err(e) => Err(e),
    }
}

/// `PRIMARY KEY`, `UNIQUE`, `NULL` or `REFERENCES` with its table.
pub open spec fn constraint_type_rule(tokens: Seq<TokenView>, pos: int) -> Parsed<
    CreateTableColumnConstraintTypeView,
> {
    if has_token(tokens, pos, Token::Primary) {
        match not_first(token_rule(tokens, pos + 1, Token::Key, "KEY after PRIMARY"@)) {
            Ok((_, p)) => Ok((CreateTableColumnConstraintTypeView::PrimaryKey, p)),
            Err(e) => Err(e),
        }
    } else if has_token(tokens, pos, Token::Unique) {
        Ok((CreateTableColumnConstraintTypeView::Unique, pos + 1))
    } else if has_token(tokens, pos, Token::Null) {
        Ok((CreateTableColumnConstraintTypeView::Nullable, pos + 1))
    } else if has_token(tokens, pos, Token::References) {
        match not_first(table_rule(tokens, pos + 1)) {
            Ok((table, q1)) => match not_first(ident_list_option(tokens, q1)) {
                Ok((columns, q2)) => Ok(
                    (CreateTableColumnConstraintTypeView::ForeignKey { table, columns }, q2),
                ),
                Err(e) => Err(e),
            },
            Err(e) => Err(e),
        }
    } else {
        Err(expecting(tokens, pos, "column constraint"@))
    }
}

/// A constraint of a column, with or without a name.
pub open spec fn constraint_rule(tokens: Seq<TokenView>, pos: int) -> Parsed<
    CreateTableColumnConstraintView,
> {
    if has_token(tokens, pos, Token::Constraint) {
        match not_first(ident_rule(tokens, pos + 1, "constraint name after CONSTRAINT"@)) {
            Ok((name, q1)) => match not_first(constraint_type_rule(tokens, q1)) {
                Ok((constraint, q2)) => Ok(
                    (CreateTableColumnConstraintView { name: Some(name), constraint }, q2),
                ),
                Err(e) => Err(e),
            },
            Err(e) => Err(e),
        }
    } else {
        match constraint_type_rule(tokens, pos) {
            Ok((constraint, p)) => Ok(
                (CreateTableColumnConstraintView { name: None, constraint }, p),
            ),
            Err(e) => Err(e),
        }
    }
}

/// Constraints as long as there are any.
pub open spec fn constraint_series_rule(
    tokens: Seq<TokenView>,
    pos: int,
    done: Seq<CreateTableColumnConstraintView>,
) -> Parsed<Seq<CreateTableColumnConstraintView>>
    decreases tokens.len() - pos,
{
    match forward(tokens, pos, constraint_rule(tokens, pos)) {
        Ok((constraint, p)) => constraint_series_rule(tokens, p, done.push(constraint)),
        Err(e) => if e.0 {
            Ok((done, pos))
        } else {
            Err(e)
        },
    }
}

/// The size of a type in brackets, where there is one.
pub open spec fn type_size_rule(tokens: Seq<TokenView>, pos: int) -> Parsed<Option<Seq<char>>> {
    if has_token(tokens, pos, Token::LeftParen) {
        match number_rule(tokens, pos + 1, "column type size"@) {
            Ok((x, p)) => match token_rule(tokens, p, Token::RightParen, ")"@) {
                Ok((_, q2)) => Ok((Some(x), q2)),
                Err(e) => Err(e),
            },
            Err(e) => Err(e),
        }
    } else {
        Ok((None, pos))
    }
}

/// The size of an array in square brackets, where there are any: with a
/// number, or without one for an array of any length.
pub open spec fn array_size_rule(tokens: Seq<TokenView>, pos: int) -> Parsed<
    Option<Option<Seq<char>>>,
> {
    if has_token(tokens, pos, Token::LeftBracket) {
        if has_token(tokens, pos + 1, Token::RightBracket) {
            Ok((Some(None), pos + 2))
        } else {
            match number_rule(tokens, pos + 1, "column array size"@) {
                Ok((x, p)) => match token_rule(tokens, p, Token::RightBracket, "]"@) {
                    Ok((_, q2)) => Ok((Some(Some(x)), q2)),
                    Err(e) => Err(e),
                },
                Err(e) => Err(e),
            }
        }
    } else {
        Ok((None, pos))
    }
}

/// A column of a table: its name, its type with a size or an array size
/// where it has one, and its constraints.
pub open spec fn create_column_rule(tokens: Seq<TokenView>, pos: int) -> Parsed<
    CreateTableColumnView,
> {
    match ident_rule(tokens, pos, "column name"@) {
        Ok((column_name, q1)) => match not_first(ident_rule(tokens, q1, "type name"@)) {
            Ok((column_type, q2)) => match type_size_rule(tokens, q2) {
                Ok((type_size, q3)) => match array_size_rule(tokens, q3) {
                    Ok((type_array_size, q4)) => match not_first(
                        constraint_series_rule(tokens, q4, Seq::empty()),
                    ) {
                        Ok((constraints, q5)) => Ok(
                            (
                                CreateTableColumnView {
                                    column_name,
                                    column_type,
                                    type_size,
                                    type_array_size,
                                    constraints,
                                },
                                q5,
                            ),
                        ),
                        Err(e) => Err(e),
                    },
                    Err(e) => Err(e),
                },
                Err(e) => Err(e),
            },
            Err(e) => Err(e),
        },
        Err(e) => Err(e),
    }
}

/// More columns, each behind a comma.
pub open spec fn create_column_list_more(
    tokens: Seq<TokenView>,
    pos: int,
    done: Seq<CreateTableColumnView>,
) -> Parsed<Seq<CreateTableColumnView>>
    decreases tokens.len() - pos,
{
    if has_token(tokens, pos, Token::Comma) {
        match not_first(forward(tokens, pos + 1, create_column_rule(tokens, pos + 1))) {
            Ok((v, p)) => create_column_list_more(tokens, p, done.push(v)),
            Err(e) => Err(e),
        }
    } else {
        Ok((done, pos))
    }
}

/// Columns with commas between them.
pub open spec fn create_column_list_rule(tokens: Seq<TokenView>, pos: int) -> Parsed<
    Seq<CreateTableColumnView>,
> {
    match create_column_rule(tokens, pos) {
        Ok((first, p)) => create_column_list_more(tokens, p, seq![first]),
        Err(e) => Err(e),
    }
}

/// `TABLE`, the name of the table, and its columns in brackets.
pub open spec fn create_table_rule(tokens: Seq<TokenView>, pos: int) -> Parsed<
    CreateTableStatementView,
> {
    match token_rule(tokens, pos, Token::Table, "TABLE"@) {
        Ok((_, q0)) => match not_first(table_rule(tokens, q0)) {
            Ok((table, q1)) => match not_first(
                token_rule(tokens, q1, Token::LeftParen, "( after table name"@),
            ) {
                Ok((_, q2)) => match not_first(create_column_list_rule(tokens, q2)) {
                    Ok((columns, q3)) => match not_first(
                        token_rule(
                            tokens,
                            q3,
                            Token::RightParen,
                            ") after table columns and constraints"@,
                        ),
                    ) {
                        Ok((_, q4)) => Ok((CreateTableStatementView { table, columns }, q4)),
                        Err(e) => Err(e),
                    },
                    Err(e) => Err(e),
                },
                Err(e) => Err(e),
            },
            Err(e) => Err(e),
        },
        Err(e) => Err(e),
    }
}

/// A `CREATE`.
pub open spec fn create_rule(tokens: Seq<TokenView>, pos: int) -> Parsed<CreateStatementView> {
    match token_rule(tokens, pos, Token::Create, "CREATE"@) {
        Ok((_, q0)) => match create_table_rule(tokens, q0) {
            Ok((stmt, p)) => Ok((CreateStatementView::Table(stmt), p)),
            Err(e) => if e.0 {
                Err(expecting(tokens, q0, "TABLE"@))
            } else {
                Err(e)
            },
        },
        Err(e) => Err(e),
    }
}

/// An `EXPLAIN` with its `SELECT`.
pub open spec fn explain_rule(tokens: Seq<TokenView>, pos: int) -> Parsed<ExplainStatementView> {
    match token_rule(tokens, pos, Token::Explain, "EXPLAIN"@) {
        Ok((_, q0)) => match select_rule(tokens, q0) {
            Ok((stmt, p)) => Ok((ExplainStatementView::Select(stmt), p)),
            Err(e) => if e.0 {
                Err(expecting(tokens, q0, "SELECT statement"@))
            } else {
                Err(e)
            },
        },
        Err(e) => Err(e),
    }
}

/// A statement where there is one: a `SELECT`, an `INSERT`, a `CREATE` or
/// an `EXPLAIN`.
pub open spec fn statement_option(tokens: Seq<TokenView>, pos: int) -> Result<
    Option<(StatementView, int)>,
    ErrorView,
> {
    match select_rule(tokens, pos) {
        Ok((select, p)) => Ok(Some((StatementView::Select(select), p))),
        Err(e) => if !e.0 {
            Err(e)
        } else {
            match insert_rule(tokens, pos) {
                Ok((insert, p)) => Ok(Some((StatementView::Insert(insert), p))),
                Err(e) => if !e.0 {
                    Err(e)
                } else {
                    match create_rule(tokens, pos) {
                        Ok((create, p)) => Ok(Some((StatementView::Create(create), p))),
                        Err(e) => if !e.0 {
                            Err(e)
                        } else {
                            match explain_rule(tokens, pos) {
                                Ok((explain, p)) => Ok(
                                    Some((StatementView::Explain(explain), p)),
                                ),
                                Err(e) => if !e.0 {
                                    Err(e)
                                } else {
                                    Ok(None)
                                },
                            }
                        },
                    }
                },
            }
        },
    }
}

/// A statement.
pub open spec fn statement_rule(tokens: Seq<TokenView>, pos: int) -> Parsed<StatementView> {
    match statement_option(tokens, pos) {
        Ok(Some(found)) => Ok(found),
        Ok(None) => Err(
            expecting(tokens, pos, "SELECT, INSERT, CREATE, or EXPLAIN statement"@),
        ),
        Err(e) => Err(e),
    }
}

/// The statement that all tokens are, with or without a semicolon behind
/// it.
pub open spec fn one_statement(tokens: Seq<TokenView>) -> Result<StatementView, ErrorView> {
    match statement_rule(tokens, 0) {
        Ok((statement, p)) => {
            let end = if has_token(tokens, p, Token::Semicolon) {
                p + 1
            } else {
                p
            };
            if token_at(tokens, end).is_none() {
                Ok(statement)
            } else {
                Err(expecting(tokens, end, "no more tokens"@))
            }
        },
        Err(e) => Err(e),
    }
}

/// The statements from `pos` on, each with a semicolon behind it, behind
/// `done`.
pub open spec fn statements_from(tokens: Seq<TokenView>, pos: int, done: Seq<StatementView>)
    -> Result<Seq<StatementView>, ErrorView>
    decreases tokens.len() - pos,
{
    match statement_option(tokens, pos) {
        Ok(Some((statement, p))) => if pos < p <= tokens.len() {
            match token_rule(tokens, p, Token::Semicolon, "semicolon"@) {
                Ok((_, q2)) => statements_from(tokens, q2, done.push(statement)),
                Err(e) => Err(e),
            }
        } else {
            Err((false, Seq::empty(), None))
        },
        Ok(None) => if token_at(tokens, pos).is_none() {
            Ok(done)
        } else {
            Err(expecting(tokens, pos, "no more tokens"@))
        },
        Err(e) => Err(e),
    }
}

/// The statements that all tokens are, each with a semicolon behind it.
pub open spec fn all_statements(tokens: Seq<TokenView>) -> Result<Seq<StatementView>, ErrorView> {
    statements_from(tokens, 0, Seq::empty())
}

} // verus!
