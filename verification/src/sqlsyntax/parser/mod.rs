//! The parser is a recursive descent parser.

use vstd::prelude::*;
use crate::sqlsyntax::ast::{
    BinaryOp, CreateStatement, CreateTableColumn, CreateTableColumnConstraint,
    CreateTableColumnConstraintType, CreateTableStatement, ExplainStatement, Expression, From,
    InsertSource, InsertStatement, Join, JoinOperator, Order, OrderingTerm, SelectColumn,
    SelectStatement, Statement, Table, TableOrSubquery, UnaryOp,
};
use crate::sqlsyntax::lexer::{tokens_view, Token, TokenView};
use crate::text::push_str;
use crate::text::string_of;

pub mod grammar;
pub mod tokens;

use self::grammar::{
    all_statements, as_alias_option, as_alias_rule, beginning_rule, binary_op_rule,
    constraint_rule, constraint_series_rule, constraint_type_rule, create_column_list_more,
    create_column_list_rule, create_column_rule, create_rule, create_table_rule, explain_rule,
    expression_list_more, expression_list_rule, expression_rule, from_rule, ident_list_more,
    ident_list_option, ident_list_rule, ident_rule, insert_rule, insert_source_rule,
    join_operator_rule, join_rule, join_series_rule, one_statement, ordering_list_more,
    ordering_list_rule, ordering_term_rule, parens_expression_list_rule, parens_select_rule,
    precedence_more, precedence_rule, select_column_list_more, select_column_list_rule,
    select_column_rule, select_group_rule, select_order_rule, select_rule, select_where_rule,
    statement_option, statement_rule, statements_from, table_list_more, table_list_rule,
    table_or_subquery_rule, table_rule, values_more,
};

use crate::sqlsyntax::views::{
    create_statement_view, create_table_column_constraint_type_view,
    create_table_column_constraint_view, create_table_column_constraints_view,
    create_table_column_view, create_table_columns_view, create_table_statement_view,
    explain_statement_view, expression_rows_view, expression_view, expressions_view, from_view,
    insert_source_view, insert_statement_view, join_view, joins_view, option_expression_view,
    option_strings_view, option_text, ordering_term_view, ordering_terms_view, select_column_view,
    select_columns_view, select_statement_view, statement_view, statements_view, strings_view,
    table_or_subquery_view, table_view, tables_or_subqueries_view,
};

pub use self::tokens::Tokens;

verus! {

/// Why tokens are no statement: what a rule expected and what it found.
/// `ExpectingFirst` says that the rule found something else than it
/// starts with; a rule that has another rule to try then tries it.
#[derive(Debug)]
pub enum RuleError {
    ExpectingFirst(&'static str, Option<Token>),
    Expecting(&'static str, Option<Token>),
}

impl View for RuleError {
    type V = (bool, Seq<char>, Option<TokenView>);

    /// Whether the rule failed at its start, what it expected and what
    /// it found.
    open spec fn view(&self) -> (bool, Seq<char>, Option<TokenView>) {
        match self {
            RuleError::ExpectingFirst(s, t) => (
                true,
                s@,
                match t {
                    Some(t) => Some(t@),
                    None => None,
                },
            ),
            RuleError::Expecting(s, t) => (
                false,
                s@,
                match t {
                    Some(t) => Some(t@),
                    None => None,
                },
            ),
        }
    }
}

/// The message of an error: what was expected and what was found.
pub open spec fn rule_error_text(e: RuleError) -> Seq<char> {
    let (s, t) = match e {
        RuleError::ExpectingFirst(s, t) => (s, t),
        RuleError::Expecting(s, t) => (s, t),
    };
    "Expected "@ + s@ + "; got "@ + match t {
        Some(token) => token.text(),
        None => "no more tokens"@,
    }
}

impl RuleError {
    /// The message of the error.
    pub fn to_string(&self) -> (r: String)
        ensures
            r@ == rule_error_text(*self),
    {
        let (s, t) = match self {
            RuleError::ExpectingFirst(s, t) => (s, t),
            RuleError::Expecting(s, t) => (s, t),
        };
        let mut out: Vec<char> = Vec::new();
        push_str(&mut out, "Expected ");
        push_str(&mut out, s);
        push_str(&mut out, "; got ");
        match t {
            Some(token) => {
                let text = token.describe();
                push_str(&mut out, text.as_str());
            },
            None => {
                push_str(&mut out, "no more tokens");
            },
        }
        proof {
            assert(out@ =~= rule_error_text(*self));
        }
        string_of(out.as_slice())
    }
}

pub type RuleResult<T> = Result<T, RuleError>;

/// The result of a rule that is not the first of its rule: a failure at
/// its start is a failure of the whole.
pub fn rule_result_not_first<T>(rule_result: RuleResult<T>) -> (r: RuleResult<T>)
    ensures
        match (rule_result, r) {
            (Ok(a), Ok(b)) => a == b,
            (Err(a), Err(b)) => b@ == (false, a@.1, a@.2),
            _ => false,
        },
{
    match rule_result {
        Err(RuleError::ExpectingFirst(s, t)) => Err(RuleError::Expecting(s, t)),
        value => value,
    }
}

/// Whether a rule left the tokens as a rule may: it has read on in the
/// same tokens, and where it succeeded it has read at least one.
pub open spec fn advanced<'a>(before: &Tokens<'a>, after: &Tokens<'a>, ok: bool) -> bool {
    &&& after.follows(before)
    &&& ok ==> after.at() > before.at()
}

/// The result of a rule that may be absent: a failure at its start says
/// that it is.
pub fn rule_result_lookahead<T>(rule_result: RuleResult<T>) -> (r: RuleResult<Option<T>>)
    ensures
        match (rule_result, r) {
            (Ok(a), Ok(Some(b))) => a == b,
            (Err(a), Ok(None)) => a@.0,
            (Err(a), Err(b)) => !a@.0 && a@ == b@,
            _ => false,
        },
{
    match rule_result {
        Ok(v) => Ok(Some(v)),
        Err(RuleError::ExpectingFirst(_, _)) => Ok(None),
        Err(e) => Err(e),
    }
}

/// Reads an identifier.
pub fn parse_ident(tokens: &mut Tokens) -> (r: RuleResult<String>)
    requires
        old(tokens).wf(),
    ensures
        match r {
            Ok(v) => ident_rule(
                old(tokens).views(),
                old(tokens).at() as int,
                "identifier"@,
            ) matches Ok((x, p)) && x == v@ && p == final(tokens).at(),
            Err(e) => ident_rule(
                old(tokens).views(),
                old(tokens).at() as int,
                "identifier"@,
            ) matches Err(x) && x == e@,
        },
        advanced(old(tokens), final(tokens), r is Ok),
    decreases old(tokens).all().len() - old(tokens).at(), 0nat,
{
    tokens.pop_ident_expecting("identifier")
}

/// Reads more identifiers, each behind a comma.
fn parse_more_idents(tokens: &mut Tokens, done: Vec<String>) -> (r: RuleResult<Vec<String>>)
    requires
        old(tokens).wf(),
    ensures
        match r {
            Ok(v) => ident_list_more(
                old(tokens).views(),
                old(tokens).at() as int,
                strings_view(done@),
            ) matches Ok((x, p)) && x == strings_view(v@) && p == final(tokens).at(),
            Err(e) => ident_list_more(
                old(tokens).views(),
                old(tokens).at() as int,
                strings_view(done@),
            ) matches Err(x) && x == e@,
        },
        final(tokens).follows(old(tokens)),
{
    let mut v = done;
    let ghost all = tokens.views();
    let ghost start = tokens.at() as int;
    let ghost first = strings_view(done@);
    proof {
        tokens.lemma_view();
    }
    // loop until no comma
    loop
        invariant
            tokens.follows(old(tokens)),
            all == old(tokens).views(),
            start == old(tokens).at(),
            first == strings_view(done@),
            ident_list_more(all, start, first) == ident_list_more(
                all,
                tokens.at() as int,
                strings_view(v@),
            ),
        ensures
            tokens.follows(old(tokens)),
            ident_list_more(all, start, first) matches Ok((x, p)) && x == strings_view(v@) && p
                == tokens.at(),
        decreases tokens.all().len() - tokens.at(),
    {
        if !tokens.pop_if_token(&Token::Comma) {
            break ;
        }
        match rule_result_not_first(parse_ident(tokens)) {
            Ok(value) => {
                proof {
                    assert(strings_view(v@.push(value)) =~= strings_view(v@).push(value@));
                }
                v.push(value);
            },
            Err(e) => {
                return Err(e);
            },
        }
    }
    Ok(v)
}

/// Reads identifiers with commas between them, in brackets.
pub fn parse_ident_list(tokens: &mut Tokens) -> (r: RuleResult<Vec<String>>)
    requires
        old(tokens).wf(),
    ensures
        match r {
            Ok(v) => ident_list_rule(old(tokens).views(), old(tokens).at() as int) matches Ok(
                (x, p),
            ) && x == strings_view(v@) && p == final(tokens).at(),
            Err(e) => ident_list_rule(old(tokens).views(), old(tokens).at() as int) matches Err(
                x,
            ) && x == e@,
        },
        advanced(old(tokens), final(tokens), r is Ok),
    decreases old(tokens).all().len() - old(tokens).at(), 1nat,
{
    let ghost all = tokens.views();
    let ghost start = tokens.at() as int;
    match tokens.pop_token_expecting(&Token::LeftParen, "(") {
        Ok(_) => {},
        Err(e) => {
            return Err(e);
        },
    }
    let mut v: Vec<String> = Vec::new();
    match rule_result_not_first(parse_ident(tokens)) {
        Ok(value) => {
            proof {
                assert(strings_view(v@.push(value)) =~= seq![value@]);
            }
            v.push(value);
        },
        Err(e) => {
            return Err(e);
        },
    }
    let v = match parse_more_idents(tokens, v) {
        Ok(v) => v,
        Err(e) => {
            return Err(e);
        },
    };
    match rule_result_not_first(tokens.pop_token_expecting(&Token::RightParen, ")")) {
        Ok(_) => Ok(v),
        Err(e) => Err(e),
    }
}

impl BinaryOp {
    /// Reads an operator of two operands.
    pub fn parse(tokens: &mut Tokens) -> (r: RuleResult<BinaryOp>)
        requires
            old(tokens).wf(),
        ensures
            match r {
                Ok(v) => binary_op_rule(
                    old(tokens).views(),
                    old(tokens).at() as int,
                ) matches Ok((x, p)) && x == v && p == final(tokens).at(),
                Err(e) => binary_op_rule(
                    old(tokens).views(),
                    old(tokens).at() as int,
                ) matches Err(x) && x == e@,
            },
            advanced(old(tokens), final(tokens), r is Ok),
        decreases old(tokens).all().len() - old(tokens).at(), 0nat,
    {
        let token = match tokens.pop_expecting("binary operator") {
            Ok(t) => t,
            Err(e) => {
                return Err(e);
            },
        };
        match token {
            Token::Equal => Ok(BinaryOp::Equal),
            Token::NotEqual => Ok(BinaryOp::NotEqual),
            Token::LessThan => Ok(BinaryOp::LessThan),
            Token::LessThanOrEqual => Ok(BinaryOp::LessThanOrEqual),
            Token::GreaterThan => Ok(BinaryOp::GreaterThan),
            Token::GreaterThanOrEqual => Ok(BinaryOp::GreaterThanOrEqual),
            Token::And => Ok(BinaryOp::And),
            Token::Or => Ok(BinaryOp::Or),
            Token::Plus => Ok(BinaryOp::Add),
            Token::Minus => Ok(BinaryOp::Subtract),
            Token::Asterisk => Ok(BinaryOp::Multiply),
            Token::ForwardSlash => Ok(BinaryOp::Divide),
            Token::Ampersand => Ok(BinaryOp::BitAnd),
            Token::Pipe => Ok(BinaryOp::BitOr),
            Token::DoublePipe => Ok(BinaryOp::Concatenate),
            _ => Err(tokens.expecting("binary operator")),
        }
    }

    /// Operators with a higher precedence have a higher number.
    pub fn precedence(&self) -> (r: u8)
        ensures
            1 <= r <= 5,
            r == self.binding(),
    {
        match self {
            BinaryOp::Multiply | BinaryOp::Divide => 5,
            BinaryOp::Add
            | BinaryOp::Subtract
            | BinaryOp::BitAnd
            | BinaryOp::BitOr
            | BinaryOp::Concatenate => 4,
            // comparison
            BinaryOp::Equal
            | BinaryOp::NotEqual
            | BinaryOp::LessThan
            | BinaryOp::LessThanOrEqual
            | BinaryOp::GreaterThan
            | BinaryOp::GreaterThanOrEqual => 3,
            // conjugation
            BinaryOp::And => 2,
            BinaryOp::Or => 1,
        }
    }

    /// How tightly the operator binds: products before sums, sums before
    /// comparisons, comparisons before `AND`, `AND` before `OR`.
    pub open spec fn binding(&self) -> u8 {
        match self {
            BinaryOp::Multiply | BinaryOp::Divide => 5,
            BinaryOp::Add
            | BinaryOp::Subtract
            | BinaryOp::BitAnd
            | BinaryOp::BitOr
            | BinaryOp::Concatenate => 4,
            BinaryOp::Equal
            | BinaryOp::NotEqual
            | BinaryOp::LessThan
            | BinaryOp::LessThanOrEqual
            | BinaryOp::GreaterThan
            | BinaryOp::GreaterThanOrEqual => 3,
            BinaryOp::And => 2,
            BinaryOp::Or => 1,
        }
    }
}

impl UnaryOp {
    /// A sign binds more tightly than any operator of two operands.
    pub fn precedence(&self) -> (r: u8)
        ensures
            r == 6,
    {
        match self {
            UnaryOp::Negate => 6,
        }
    }
}

impl Expression {
    /// Reads an expression.
    pub fn parse(tokens: &mut Tokens) -> (r: RuleResult<Expression>)
        requires
            old(tokens).wf(),
        ensures
            match r {
                Ok(v) => expression_rule(
                    old(tokens).views(),
                    old(tokens).at() as int,
                ) matches Ok((x, p)) && x == expression_view(&v) && p == final(tokens).at(),
                Err(e) => expression_rule(
                    old(tokens).views(),
                    old(tokens).at() as int,
                ) matches Err(x) && x == e@,
            },
            advanced(old(tokens), final(tokens), r is Ok),
        decreases old(tokens).all().len() - old(tokens).at(), 3nat,
    {
        Expression::parse_precedence(tokens, 0)
    }

    /// Reads expressions with commas between them.
    pub fn parse_comma_delimited(tokens: &mut Tokens) -> (r: RuleResult<Vec<Expression>>)
        requires
            old(tokens).wf(),
        ensures
            match r {
                Ok(v) => expression_list_rule(
                    old(tokens).views(),
                    old(tokens).at() as int,
                ) matches Ok((x, p)) && x == expressions_view(v@) && p == final(tokens).at(),
                Err(e) => expression_list_rule(
                    old(tokens).views(),
                    old(tokens).at() as int,
                ) matches Err(x) && x == e@,
            },
            advanced(old(tokens), final(tokens), r is Ok),
        decreases old(tokens).all().len() - old(tokens).at(), 4nat,
    {
        let mut v: Vec<Expression> = Vec::new();
        let ghost all = tokens.views();
        let ghost start = tokens.at() as int;
        match Expression::parse(tokens) {
            Ok(value) => {
                proof {
                    assert(expressions_view(v@.push(value)) =~= seq![expression_view(&value)]);
                }
                v.push(value);
            },
            Err(e) => {
                return Err(e);
            },
        }
        // loop until no comma
        loop
            invariant
                tokens.follows(old(tokens)),
                tokens.at() > old(tokens).at(),
                all == old(tokens).views(),
                start == old(tokens).at(),
                expression_list_rule(all, start)
                    == expression_list_more(all, tokens.at() as int, expressions_view(v@)),
            ensures
                tokens.follows(old(tokens)),
                tokens.at() > old(tokens).at(),
                expression_list_rule(all, start) matches Ok((x, p))
                    && x == expressions_view(v@) && p == tokens.at(),
            decreases tokens.all().len() - tokens.at(),
        {
            if !tokens.pop_if_token(&Token::Comma) {
                break ;
            }
            // After the first item, ExpectingFirst gets converted to Expecting.
            match rule_result_not_first(Expression::parse(tokens)) {
                Ok(value) => {
                    proof {
                        assert(expressions_view(v@.push(value))
                            =~= expressions_view(v@).push(expression_view(&value)));
                    }
                    v.push(value);
                },
                Err(e) => {
                    return Err(e);
                },
            }
        }
        Ok(v)
    }

    /// Reads expressions with commas between them, in brackets.
    pub fn parse_parens_comma_delimited(tokens: &mut Tokens) -> (r: RuleResult<Vec<Expression>>)
        requires
            old(tokens).wf(),
        ensures
            match r {
                Ok(v) => parens_expression_list_rule(
                    old(tokens).views(),
                    old(tokens).at() as int,
                ) matches Ok((x, p)) && x == expressions_view(v@) && p == final(tokens).at(),
                Err(e) => parens_expression_list_rule(
                    old(tokens).views(),
                    old(tokens).at() as int,
                ) matches Err(x) && x == e@,
            },
            advanced(old(tokens), final(tokens), r is Ok),
        decreases old(tokens).all().len() - old(tokens).at(), 0nat,
    {
        match tokens.pop_token_expecting(&Token::LeftParen, "(") {
            Ok(_) => {},
            Err(e) => {
                return Err(e);
            },
        }
        let p = match rule_result_not_first(Expression::parse_comma_delimited(tokens)) {
            Ok(p) => p,
            Err(e) => {
                return Err(e);
            },
        };
        match rule_result_not_first(tokens.pop_token_expecting(&Token::RightParen, ")")) {
            Ok(_) => Ok(p),
            Err(e) => Err(e),
        }
    }

    /// Expressions are parsed using an algorithm known as "precedence
    /// climbing": an operand is read, and then operators with their right
    /// operands as long as the operators bind at least as tightly as
    /// `min_precedence`. Operators of one precedence associate to the
    /// left.
    pub fn parse_precedence(tokens: &mut Tokens, min_precedence: u8) -> (r: RuleResult<Expression>)
        requires
            old(tokens).wf(),
        ensures
            match r {
                Ok(v) => precedence_rule(
                    old(tokens).views(),
                    old(tokens).at() as int,
                    min_precedence,
                ) matches Ok((x, p)) && x == expression_view(&v) && p == final(tokens).at(),
                Err(e) => precedence_rule(
                    old(tokens).views(),
                    old(tokens).at() as int,
                    min_precedence,
                ) matches Err(x) && x == e@,
            },
            advanced(old(tokens), final(tokens), r is Ok),
        decreases old(tokens).all().len() - old(tokens).at(), 2nat,
    {
        let ghost all = tokens.views();
        let ghost start = tokens.at() as int;
        let mut expr = match Expression::parse_beginning(tokens) {
            Ok(e) => e,
            Err(e) => {
                return Err(e);
            },
        };
        // Test for after-expression tokens
        loop
            invariant
                tokens.follows(old(tokens)),
                tokens.at() > old(tokens).at(),
                all == old(tokens).views(),
                start == old(tokens).at(),
                precedence_rule(all, start, min_precedence) == precedence_more(
                    all,
                    tokens.at() as int,
                    min_precedence,
                    expression_view(&expr),
                ),
            ensures
                tokens.follows(old(tokens)),
                tokens.at() > old(tokens).at(),
                precedence_rule(all, start, min_precedence) matches Ok((x, p)) && x
                    == expression_view(&expr) && p == tokens.at(),
            decreases tokens.all().len() - tokens.at(),
        {
            let mut ahead = *tokens;
            let binary_op = match rule_result_lookahead(BinaryOp::parse(&mut ahead)) {
                Ok(Some(op)) => op,
                Ok(None) => {
                    break ;
                },
                Err(e) => {
                    return rule_result_not_first(Err(e));
                },
            };
            let binary_op_precedence = binary_op.precedence();
            if binary_op_precedence >= min_precedence {
                // Assuming left associative
                let q = binary_op_precedence + 1;
                let rhs = match rule_result_not_first(Expression::parse_precedence(&mut ahead, q)) {
                    Ok(rhs) => rhs,
                    Err(e) => {
                        *tokens = ahead;
                        return Err(e);
                    },
                };
                expr = Expression::BinaryOp { lhs: Box::new(expr), rhs: Box::new(rhs), op: binary_op };
                *tokens = ahead;
            } else {
                // Let the previous expression rule with the lower precedence (if any) take over
                break ;
            }
        }
        Ok(expr)
    }

    /// Reads an operand: a signed operand, an expression or a subquery in
    /// brackets, `NULL`, a function call, a column, a string or a number.
    pub fn parse_beginning(tokens: &mut Tokens) -> (r: RuleResult<Expression>)
        requires
            old(tokens).wf(),
        ensures
            match r {
                Ok(v) => beginning_rule(
                    old(tokens).views(),
                    old(tokens).at() as int,
                ) matches Ok((x, p)) && x == expression_view(&v) && p == final(tokens).at(),
                Err(e) => beginning_rule(
                    old(tokens).views(),
                    old(tokens).at() as int,
                ) matches Err(x) && x == e@,
            },
            advanced(old(tokens), final(tokens), r is Ok),
        decreases old(tokens).all().len() - old(tokens).at(), 1nat,
    {
        if tokens.pop_if_token(&Token::Plus) {
            // Unary, positive
            // There's no point in making a Positive unary operator, so we'll "cheat" and use negate's precedence.
            rule_result_not_first(Expression::parse_precedence(tokens, UnaryOp::Negate.precedence()))
        } else if tokens.pop_if_token(&Token::Minus) {
            // Unary, negation
            match rule_result_not_first(
                Expression::parse_precedence(tokens, UnaryOp::Negate.precedence()),
            ) {
                Ok(e) => Ok(Expression::UnaryOp { expr: Box::new(e), op: UnaryOp::Negate }),
                Err(e) => Err(e),
            }
        } else if tokens.pop_if_token(&Token::LeftParen) {
            let mut ahead = *tokens;
            match rule_result_lookahead(SelectStatement::parse(&mut ahead)) {
                Ok(Some(subquery)) => {
                    // Expression is a subquery.
                    *tokens = ahead;
                    match tokens.pop_token_expecting(&Token::RightParen, ") after subquery") {
                        Ok(_) => Ok(Expression::Subquery(Box::new(subquery))),
                        Err(e) => Err(e),
                    }
                },
                Ok(None) => {
                    let mut ahead = *tokens;
                    match rule_result_lookahead(Expression::parse(&mut ahead)) {
                        Ok(Some(encased_expression)) => {
                            // Expression is surrounded in parens for precedence.
                            *tokens = ahead;
                            match tokens.pop_token_expecting(
                                &Token::RightParen,
                                ") after expression",
                            ) {
                                Ok(_) => Ok(encased_expression),
                                Err(e) => Err(e),
                            }
                        },
                        Ok(None) => Err(tokens.expecting("expression or subquery after (")),
                        Err(e) => {
                            *tokens = ahead;
                            Err(e)
                        },
                    }
                },
                Err(e) => {
                    *tokens = ahead;
                    Err(e)
                },
            }
        } else if tokens.pop_if_token(&Token::Null) {
            Ok(Expression::Null)
        } else if let Some(ident) = tokens.pop_if_ident() {
            if tokens.pop_if_token(&Token::LeftParen) {
                // Function call
                if tokens.pop_if_token(&Token::Asterisk) {
                    match rule_result_not_first(
                        tokens.pop_token_expecting(
                            &Token::RightParen,
                            ") after aggregate asterisk. e.g. (*)",
                        ),
                    ) {
                        Ok(_) => Ok(Expression::FunctionCallAggregateAll { name: ident }),
                        Err(e) => Err(e),
                    }
                } else {
                    let arguments = match rule_result_not_first(
                        Expression::parse_comma_delimited(tokens),
                    ) {
                        Ok(a) => a,
                        Err(e) => {
                            return Err(e);
                        },
                    };
                    match rule_result_not_first(
                        tokens.pop_token_expecting(&Token::RightParen, ") after function arguments"),
                    ) {
                        Ok(_) => Ok(Expression::FunctionCall { name: ident, arguments }),
                        Err(e) => Err(e),
                    }
                }
            } else if tokens.pop_if_token(&Token::Dot) {
                match rule_result_not_first(tokens.pop_ident_expecting("ident after .")) {
                    Ok(ident2) => Ok(Expression::IdentMember(ident, ident2)),
                    Err(e) => Err(e),
                }
            } else {
                Ok(Expression::Ident(ident))
            }
        } else if let Some(string) = tokens.pop_if_string_literal() {
            Ok(Expression::StringLiteral(string))
        } else if let Some(number) = tokens.pop_if_number() {
            Ok(Expression::Number(number))
        } else {
            Err(tokens.expecting("identifier or number"))
        }
    }
}

/// Reads an alias, with or without `AS` before it.
pub fn parse_as_alias(tokens: &mut Tokens) -> (r: RuleResult<String>)
    requires
        old(tokens).wf(),
    ensures
        match r {
            Ok(v) => as_alias_rule(
                old(tokens).views(),
                old(tokens).at() as int,
            ) matches Ok((x, p)) && x == v@ && p == final(tokens).at(),
            Err(e) => as_alias_rule(
                old(tokens).views(),
                old(tokens).at() as int,
            ) matches Err(x) && x == e@,
        },
        advanced(old(tokens), final(tokens), r is Ok),
    decreases old(tokens).all().len() - old(tokens).at(), 0nat,
{
    if tokens.pop_if_token(&Token::As) {
        // Expecting alias
        rule_result_not_first(tokens.pop_ident_expecting("alias after `as` keyword"))
    } else {
        tokens.pop_ident_expecting("alias name or `as` keyword")
    }
}

/// Reads an alias where there is one.
pub fn parse_as_alias_lookahead(tokens: &mut Tokens) -> (r: RuleResult<Option<String>>)
    requires
        old(tokens).wf(),
    ensures
        match r {
            Ok(v) => as_alias_option(
                old(tokens).views(),
                old(tokens).at() as int,
            ) matches Ok((x, p)) && x == option_text(v) && p == final(tokens).at(),
            Err(e) => as_alias_option(
                old(tokens).views(),
                old(tokens).at() as int,
            ) matches Err(x) && x == e@,
        },
        final(tokens).follows(old(tokens)),
{
    let mut ahead = *tokens;
    match rule_result_lookahead(parse_as_alias(&mut ahead)) {
        Ok(Some(v)) => {
            *tokens = ahead;
            Ok(Some(v))
        },
        Ok(None) => Ok(None),
        Err(e) => {
            *tokens = ahead;
            Err(e)
        },
    }
}

impl Table {
    /// Reads the name of a table.
    pub fn parse(tokens: &mut Tokens) -> (r: RuleResult<Table>)
        requires
            old(tokens).wf(),
        ensures
            match r {
                Ok(v) => table_rule(
                    old(tokens).views(),
                    old(tokens).at() as int,
                ) matches Ok((x, p)) && x == table_view(&v) && p == final(tokens).at(),
                Err(e) => table_rule(
                    old(tokens).views(),
                    old(tokens).at() as int,
                ) matches Err(x) && x == e@,
            },
            advanced(old(tokens), final(tokens), r is Ok),
        decreases old(tokens).all().len() - old(tokens).at(), 0nat,
    {
        match tokens.pop_ident_expecting("table name") {
            Ok(table_name) => Ok(Table { database_name: None, table_name }),
            Err(e) => Err(e),
        }
    }
}

impl TableOrSubquery {
    /// Reads a subquery in brackets with its alias, or a table with or
    /// without one.
    pub fn parse(tokens: &mut Tokens) -> (r: RuleResult<TableOrSubquery>)
        requires
            old(tokens).wf(),
        ensures
            match r {
                Ok(v) => table_or_subquery_rule(
                    old(tokens).views(),
                    old(tokens).at() as int,
                ) matches Ok((x, p)) && x == table_or_subquery_view(&v) && p == final(tokens).at(),
                Err(e) => table_or_subquery_rule(
                    old(tokens).views(),
                    old(tokens).at() as int,
                ) matches Err(x) && x == e@,
            },
            advanced(old(tokens), final(tokens), r is Ok),
        decreases old(tokens).all().len() - old(tokens).at(), 2nat,
    {
        let mut ahead = *tokens;
        match rule_result_lookahead(SelectStatement::parse_parens(&mut ahead)) {
            Ok(Some(select)) => {
                // Subquery
                *tokens = ahead;
                match rule_result_not_first(parse_as_alias(tokens)) {
                    Ok(alias) => Ok(
                        TableOrSubquery::Subquery { subquery: Box::new(select), alias },
                    ),
                    Err(e) => Err(e),
                }
            },
            Ok(None) => {
                let mut ahead = *tokens;
                match rule_result_lookahead(Table::parse(&mut ahead)) {
                    Ok(Some(table)) => {
                        // Table
                        *tokens = ahead;
                        match rule_result_not_first(parse_as_alias_lookahead(tokens)) {
                            Ok(alias) => Ok(TableOrSubquery::Table { table, alias }),
                            Err(e) => Err(e),
                        }
                    },
                    Ok(None) => Err(tokens.expecting("subquery or table name")),
                    Err(e) => {
                        *tokens = ahead;
                        Err(e)
                    },
                }
            },
            Err(e) => {
                *tokens = ahead;
                Err(e)
            },
        }
    }

    /// Reads tables and subqueries with commas between them.
    pub fn parse_comma_delimited(tokens: &mut Tokens) -> (r: RuleResult<Vec<TableOrSubquery>>)
        requires
            old(tokens).wf(),
        ensures
            match r {
                Ok(v) => table_list_rule(
                    old(tokens).views(),
                    old(tokens).at() as int,
                ) matches Ok((x, p))
                    && x == tables_or_subqueries_view(v@) && p == final(tokens).at(),
                Err(e) => table_list_rule(
                    old(tokens).views(),
                    old(tokens).at() as int,
                ) matches Err(x) && x == e@,
            },
            advanced(old(tokens), final(tokens), r is Ok),
        decreases old(tokens).all().len() - old(tokens).at(), 3nat,
    {
        let mut v: Vec<TableOrSubquery> = Vec::new();
        let ghost all = tokens.views();
        let ghost start = tokens.at() as int;
        match TableOrSubquery::parse(tokens) {
            Ok(value) => {
                proof {
                    assert(tables_or_subqueries_view(v@.push(value))
                        =~= seq![table_or_subquery_view(&value)]);
                }
                v.push(value);
            },
            Err(e) => {
                return Err(e);
            },
        }
        loop
            invariant
                tokens.follows(old(tokens)),
                tokens.at() > old(tokens).at(),
                all == old(tokens).views(),
                start == old(tokens).at(),
                table_list_rule(all, start)
                    == table_list_more(all, tokens.at() as int, tables_or_subqueries_view(v@)),
            ensures
                tokens.follows(old(tokens)),
                tokens.at() > old(tokens).at(),
                table_list_rule(all, start) matches Ok((x, p))
                    && x == tables_or_subqueries_view(v@) && p == tokens.at(),
            decreases tokens.all().len() - tokens.at(),
        {
            if !tokens.pop_if_token(&Token::Comma) {
                break ;
            }
            match rule_result_not_first(TableOrSubquery::parse(tokens)) {
                Ok(value) => {
                    proof {
                        assert(tables_or_subqueries_view(v@.push(value))
                            =~= tables_or_subqueries_view(v@).push(table_or_subquery_view(&value)));
                    }
                    v.push(value);
                },
                Err(e) => {
                    return Err(e);
                },
            }
        }
        Ok(v)
    }
}

impl SelectColumn {
    /// Reads `*`, or an expression with or without an alias.
    pub fn parse(tokens: &mut Tokens) -> (r: RuleResult<SelectColumn>)
        requires
            old(tokens).wf(),
        ensures
            match r {
                Ok(v) => select_column_rule(
                    old(tokens).views(),
                    old(tokens).at() as int,
                ) matches Ok((x, p)) && x == select_column_view(&v) && p == final(tokens).at(),
                Err(e) => select_column_rule(
                    old(tokens).views(),
                    old(tokens).at() as int,
                ) matches Err(x) && x == e@,
            },
            advanced(old(tokens), final(tokens), r is Ok),
        decreases old(tokens).all().len() - old(tokens).at(), 4nat,
    {
        if tokens.pop_if_token(&Token::Asterisk) {
            Ok(SelectColumn::AllColumns)
        } else {
            let mut ahead = *tokens;
            match rule_result_lookahead(Expression::parse(&mut ahead)) {
                Ok(Some(expr)) => {
                    *tokens = ahead;
                    match rule_result_not_first(parse_as_alias_lookahead(tokens)) {
                        Ok(alias) => Ok(SelectColumn::Expr { expr, alias }),
                        Err(e) => Err(e),
                    }
                },
                Ok(None) => Err(tokens.expecting("* or expression for SELECT column")),
                Err(e) => {
                    *tokens = ahead;
                    Err(e)
                },
            }
        }
    }

    /// Reads selected columns with commas between them.
    pub fn parse_comma_delimited(tokens: &mut Tokens) -> (r: RuleResult<Vec<SelectColumn>>)
        requires
            old(tokens).wf(),
        ensures
            match r {
                Ok(v) => select_column_list_rule(
                    old(tokens).views(),
                    old(tokens).at() as int,
                ) matches Ok((x, p)) && x == select_columns_view(v@) && p == final(tokens).at(),
                Err(e) => select_column_list_rule(
                    old(tokens).views(),
                    old(tokens).at() as int,
                ) matches Err(x) && x == e@,
            },
            advanced(old(tokens), final(tokens), r is Ok),
        decreases old(tokens).all().len() - old(tokens).at(), 5nat,
    {
        let mut v: Vec<SelectColumn> = Vec::new();
        let ghost all = tokens.views();
        let ghost start = tokens.at() as int;
        match SelectColumn::parse(tokens) {
            Ok(value) => {
                proof {
                    assert(select_columns_view(v@.push(value))
                        =~= seq![select_column_view(&value)]);
                }
                v.push(value);
            },
            Err(e) => {
                return Err(e);
            },
        }
        loop
            invariant
                tokens.follows(old(tokens)),
                tokens.at() > old(tokens).at(),
                all == old(tokens).views(),
                start == old(tokens).at(),
                select_column_list_rule(all, start)
                    == select_column_list_more(all, tokens.at() as int, select_columns_view(v@)),
            ensures
                tokens.follows(old(tokens)),
                tokens.at() > old(tokens).at(),
                select_column_list_rule(all, start) matches Ok((x, p))
                    && x == select_columns_view(v@) && p == tokens.at(),
            decreases tokens.all().len() - tokens.at(),
        {
            if !tokens.pop_if_token(&Token::Comma) {
                break ;
            }
            match rule_result_not_first(SelectColumn::parse(tokens)) {
                Ok(value) => {
                    proof {
                        assert(select_columns_view(v@.push(value))
                            =~= select_columns_view(v@).push(select_column_view(&value)));
                    }
                    v.push(value);
                },
                Err(e) => {
                    return Err(e);
                },
            }
        }
        Ok(v)
    }
}

impl SelectStatement {
    /// Reads a `SELECT` in brackets.
    pub fn parse_parens(tokens: &mut Tokens) -> (r: RuleResult<SelectStatement>)
        requires
            old(tokens).wf(),
        ensures
            match r {
                Ok(v) => parens_select_rule(
                    old(tokens).views(),
                    old(tokens).at() as int,
                ) matches Ok((x, p)) && x == select_statement_view(&v) && p == final(tokens).at(),
                Err(e) => parens_select_rule(
                    old(tokens).views(),
                    old(tokens).at() as int,
                ) matches Err(x) && x == e@,
            },
            advanced(old(tokens), final(tokens), r is Ok),
        decreases old(tokens).all().len() - old(tokens).at(), 0nat,
    {
        match tokens.pop_token_expecting(&Token::LeftParen, "(") {
            Ok(_) => {},
            Err(e) => {
                return Err(e);
            },
        }
        let p = match rule_result_not_first(SelectStatement::parse(tokens)) {
            Ok(p) => p,
            Err(e) => {
                return Err(e);
            },
        };
        match rule_result_not_first(tokens.pop_token_expecting(&Token::RightParen, ")")) {
            Ok(_) => Ok(p),
            Err(e) => Err(e),
        }
    }

    /// Reads a `SELECT`: its columns, its `FROM`, and then where they
    /// are there its `WHERE`, its `GROUP BY` with its `HAVING`, and its
    /// `ORDER BY`.
    pub fn parse(tokens: &mut Tokens) -> (r: RuleResult<SelectStatement>)
        requires
            old(tokens).wf(),
        ensures
            match r {
                Ok(v) => select_rule(old(tokens).views(), old(tokens).at() as int) matches Ok(
                    (x, p),
                ) && x == select_statement_view(&v) && p == final(tokens).at(),
                Err(e) => select_rule(old(tokens).views(), old(tokens).at() as int) matches Err(
                    x,
                ) && x == e@,
            },
            advanced(old(tokens), final(tokens), r is Ok),
        decreases old(tokens).all().len() - old(tokens).at(), 0nat,
    {
        match tokens.pop_token_expecting(&Token::Select, "SELECT") {
            Ok(_) => {},
            Err(e) => {
                return Err(e);
            },
        }
        let result_columns = match rule_result_not_first(
            SelectColumn::parse_comma_delimited(tokens),
        ) {
            Ok(c) => c,
            Err(e) => {
                return Err(e);
            },
        };
        let from = match rule_result_not_first(From::parse(tokens)) {
            Ok(f) => f,
            Err(e) => {
                return Err(e);
            },
        };
        SelectStatement::parse_where(tokens, result_columns, from)
    }

    /// Reads the `WHERE` of a `SELECT`, where it has one, and what
    /// follows.
    fn parse_where(tokens: &mut Tokens, result_columns: Vec<SelectColumn>, from: From) -> (r:
        RuleResult<SelectStatement>)
        requires
            old(tokens).wf(),
        ensures
            match r {
                Ok(v) => select_where_rule(
                    old(tokens).views(),
                    old(tokens).at() as int,
                    select_columns_view(result_columns@),
                    from_view(&from),
                ) matches Ok((x, p)) && x == select_statement_view(&v) && p == final(tokens).at(),
                Err(e) => select_where_rule(
                    old(tokens).views(),
                    old(tokens).at() as int,
                    select_columns_view(result_columns@),
                    from_view(&from),
                ) matches Err(x) && x == e@,
            },
            final(tokens).follows(old(tokens)),
        decreases old(tokens).all().len() - old(tokens).at(), 12nat,
    {
        proof {
            tokens.lemma_view();
        }
        let where_expr = if tokens.pop_if_token(&Token::Where) {
            match rule_result_not_first(Expression::parse(tokens)) {
                Ok(e) => Some(e),
                Err(e) => {
                    return Err(e);
                },
            }
        } else {
            None
        };
        SelectStatement::parse_group(tokens, result_columns, from, where_expr)
    }

    /// Reads the `GROUP BY` of a `SELECT` with its `HAVING`, where it has
    /// them, and what follows.
    fn parse_group(
        tokens: &mut Tokens,
        result_columns: Vec<SelectColumn>,
        from: From,
        where_expr: Option<Expression>,
    ) -> (r: RuleResult<SelectStatement>)
        requires
            old(tokens).wf(),
        ensures
            match r {
                Ok(v) => select_group_rule(
                    old(tokens).views(),
                    old(tokens).at() as int,
                    select_columns_view(result_columns@),
                    from_view(&from),
                    option_expression_view(&where_expr),
                ) matches Ok((x, p)) && x == select_statement_view(&v) && p == final(tokens).at(),
                Err(e) => select_group_rule(
                    old(tokens).views(),
                    old(tokens).at() as int,
                    select_columns_view(result_columns@),
                    from_view(&from),
                    option_expression_view(&where_expr),
                ) matches Err(x) && x == e@,
            },
            final(tokens).follows(old(tokens)),
        decreases old(tokens).all().len() - old(tokens).at(), 11nat,
    {
        proof {
            tokens.lemma_view();
        }
        if tokens.pop_if_token(&Token::Group) {
            match rule_result_not_first(tokens.pop_token_expecting(&Token::By, "BY after GROUP")) {
                Ok(_) => {},
                Err(e) => {
                    return Err(e);
                },
            }
            let group_by = match rule_result_not_first(Expression::parse_comma_delimited(tokens)) {
                Ok(g) => g,
                Err(e) => {
                    return Err(e);
                },
            };
            if tokens.pop_if_token(&Token::Having) {
                let having = match rule_result_not_first(Expression::parse(tokens)) {
                    Ok(h) => h,
                    Err(e) => {
                        return Err(e);
                    },
                };
                SelectStatement::parse_order(
                    tokens,
                    result_columns,
                    from,
                    where_expr,
                    group_by,
                    Some(having),
                )
            } else {
                SelectStatement::parse_order(tokens, result_columns, from, where_expr, group_by, None)
            }
        } else {
            let group_by: Vec<Expression> = Vec::new();
            proof {
                assert(expressions_view(group_by@) =~= Seq::empty());
            }
            SelectStatement::parse_order(tokens, result_columns, from, where_expr, group_by, None)
        }
    }

    /// Reads the `ORDER BY` of a `SELECT`, where it has one.
    fn parse_order(
        tokens: &mut Tokens,
        result_columns: Vec<SelectColumn>,
        from: From,
        where_expr: Option<Expression>,
        group_by: Vec<Expression>,
        having: Option<Expression>,
    ) -> (r: RuleResult<SelectStatement>)
        requires
            old(tokens).wf(),
        ensures
            match r {
                Ok(v) => select_order_rule(
                    old(tokens).views(),
                    old(tokens).at() as int,
                    select_columns_view(result_columns@),
                    from_view(&from),
                    option_expression_view(&where_expr),
                    expressions_view(group_by@),
                    option_expression_view(&having),
                ) matches Ok((x, p)) && x == select_statement_view(&v) && p == final(tokens).at(),
                Err(e) => select_order_rule(
                    old(tokens).views(),
                    old(tokens).at() as int,
                    select_columns_view(result_columns@),
                    from_view(&from),
                    option_expression_view(&where_expr),
                    expressions_view(group_by@),
                    option_expression_view(&having),
                ) matches Err(x) && x == e@,
            },
            final(tokens).follows(old(tokens)),
        decreases old(tokens).all().len() - old(tokens).at(), 10nat,
    {
        proof {
            tokens.lemma_view();
        }
        let order_by = if tokens.pop_if_token(&Token::Order) {
            match rule_result_not_first(tokens.pop_token_expecting(&Token::By, "BY after ORDER")) {
                Ok(_) => {},
                Err(e) => {
                    return Err(e);
                },
            }
            match rule_result_not_first(OrderingTerm::parse_comma_delimited(tokens)) {
                Ok(o) => o,
                Err(e) => {
                    return Err(e);
                },
            }
        } else {
            let none: Vec<OrderingTerm> = Vec::new();
            proof {
                assert(ordering_terms_view(none@) =~= Seq::empty());
            }
            none
        };
        Ok(SelectStatement { result_columns, from, where_expr, group_by, having, order_by })
    }
}

impl From {
    /// Reads a `FROM`: tables with commas between them, or one table
    /// with joins.
    pub fn parse(tokens: &mut Tokens) -> (r: RuleResult<From>)
        requires
            old(tokens).wf(),
        ensures
            match r {
                Ok(v) => from_rule(
                    old(tokens).views(),
                    old(tokens).at() as int,
                ) matches Ok((x, p)) && x == from_view(&v) && p == final(tokens).at(),
                Err(e) => from_rule(
                    old(tokens).views(),
                    old(tokens).at() as int,
                ) matches Err(x) && x == e@,
            },
            advanced(old(tokens), final(tokens), r is Ok),
        decreases old(tokens).all().len() - old(tokens).at(), 0nat,
    {
        match tokens.pop_token_expecting(&Token::From, "FROM") {
            Ok(_) => {},
            Err(e) => {
                return Err(e);
            },
        }
        let mut tables = match rule_result_not_first(TableOrSubquery::parse_comma_delimited(tokens)) {
            Ok(t) => t,
            Err(e) => {
                return Err(e);
            },
        };
        if tables.len() == 1 {
            // Could add a JOIN clause
            let joins = match rule_result_not_first(Join::parse_series_star(tokens)) {
                Ok(j) => j,
                Err(e) => {
                    return Err(e);
                },
            };
            if joins.len() > 0 {
                match tables.pop() {
                    Some(table) => Ok(From::Join { table, joins }),
                    None => Ok(From::Cross(tables)),
                }
            } else {
                Ok(From::Cross(tables))
            }
        } else {
            Ok(From::Cross(tables))
        }
    }
}

impl JoinOperator {
    /// Reads `LEFT JOIN`, `LEFT OUTER JOIN` or `INNER JOIN`.
    pub fn parse(tokens: &mut Tokens) -> (r: RuleResult<JoinOperator>)
        requires
            old(tokens).wf(),
        ensures
            match r {
                Ok(v) => join_operator_rule(
                    old(tokens).views(),
                    old(tokens).at() as int,
                ) matches Ok((x, p)) && x == v && p == final(tokens).at(),
                Err(e) => join_operator_rule(
                    old(tokens).views(),
                    old(tokens).at() as int,
                ) matches Err(x) && x == e@,
            },
            advanced(old(tokens), final(tokens), r is Ok),
        decreases old(tokens).all().len() - old(tokens).at(), 0nat,
    {
        if tokens.pop_if_token(&Token::Left) {
            // "Outer" is optional. Pop if it exists.
            let _ = tokens.pop_if_token(&Token::Outer);
            match rule_result_not_first(
                tokens.pop_token_expecting(&Token::Join, "JOIN after LEFT (OUTER)"),
            ) {
                Ok(_) => Ok(JoinOperator::Left),
                Err(e) => Err(e),
            }
        } else if tokens.pop_if_token(&Token::Inner) {
            match rule_result_not_first(tokens.pop_token_expecting(&Token::Join, "JOIN after INNER")) {
                Ok(_) => Ok(JoinOperator::Inner),
                Err(e) => Err(e),
            }
        } else {
            Err(tokens.expecting("Join operator (LEFT or INNER)"))
        }
    }
}

impl Join {
    /// Reads a join: its operator, its table and its condition.
    pub fn parse(tokens: &mut Tokens) -> (r: RuleResult<Join>)
        requires
            old(tokens).wf(),
        ensures
            match r {
                Ok(v) => join_rule(
                    old(tokens).views(),
                    old(tokens).at() as int,
                ) matches Ok((x, p)) && x == join_view(&v) && p == final(tokens).at(),
                Err(e) => join_rule(
                    old(tokens).views(),
                    old(tokens).at() as int,
                ) matches Err(x) && x == e@,
            },
            advanced(old(tokens), final(tokens), r is Ok),
        decreases old(tokens).all().len() - old(tokens).at(), 1nat,
    {
        let operator = match JoinOperator::parse(tokens) {
            Ok(o) => o,
            Err(e) => {
                return Err(e);
            },
        };
        let table = match rule_result_not_first(TableOrSubquery::parse(tokens)) {
            Ok(t) => t,
            Err(e) => {
                return Err(e);
            },
        };
        match rule_result_not_first(tokens.pop_token_expecting(&Token::On, "ON")) {
            Ok(_) => {},
            Err(e) => {
                return Err(e);
            },
        }
        match rule_result_not_first(Expression::parse(tokens)) {
            Ok(on) => Ok(Join { operator, table, on }),
            Err(e) => Err(e),
        }
    }

    /// Reads joins as long as there are any.
    pub fn parse_series_star(tokens: &mut Tokens) -> (r: RuleResult<Vec<Join>>)
        requires
            old(tokens).wf(),
        ensures
            match r {
                Ok(v) => join_series_rule(
                    old(tokens).views(),
                    old(tokens).at() as int,
                    Seq::empty(),
                ) matches Ok((x, p)) && x == joins_view(v@) && p == final(tokens).at(),
                Err(e) => join_series_rule(
                    old(tokens).views(),
                    old(tokens).at() as int,
                    Seq::empty(),
                ) matches Err(x) && x == e@,
            },
            final(tokens).follows(old(tokens)),
        decreases old(tokens).all().len() - old(tokens).at(), 2nat,
    {
        let mut v: Vec<Join> = Vec::new();
        let ghost all = tokens.views();
        let ghost start = tokens.at() as int;
        proof {
            tokens.lemma_view();
            assert(joins_view(v@) =~= Seq::empty());
        }
        loop
            invariant
                tokens.follows(old(tokens)),
                all == old(tokens).views(),
                start == old(tokens).at(),
                join_series_rule(all, start, Seq::empty()) == join_series_rule(
                    all,
                    tokens.at() as int,
                    joins_view(v@),
                ),
            ensures
                tokens.follows(old(tokens)),
                join_series_rule(all, start, Seq::empty()) matches Ok((x, p)) && x == joins_view(v@)
                    && p == tokens.at(),
            decreases tokens.all().len() - tokens.at(),
        {
            let mut ahead = *tokens;
            match rule_result_lookahead(Join::parse(&mut ahead)) {
                Ok(Some(value)) => {
                    *tokens = ahead;
                    proof {
                        assert(joins_view(v@.push(value))
                            =~= joins_view(v@).push(join_view(&value)));
                    }
                    v.push(value);
                },
                Ok(None) => {
                    break ;
                },
                Err(e) => {
                    *tokens = ahead;
                    return Err(e);
                },
            }
        }
        Ok(v)
    }
}

impl OrderingTerm {
    /// Reads an expression to order by, with or without `ASC` or `DESC`.
    pub fn parse(tokens: &mut Tokens) -> (r: RuleResult<OrderingTerm>)
        requires
            old(tokens).wf(),
        ensures
            match r {
                Ok(v) => ordering_term_rule(
                    old(tokens).views(),
                    old(tokens).at() as int,
                ) matches Ok((x, p)) && x == ordering_term_view(&v) && p == final(tokens).at(),
                Err(e) => ordering_term_rule(
                    old(tokens).views(),
                    old(tokens).at() as int,
                ) matches Err(x) && x == e@,
            },
            advanced(old(tokens), final(tokens), r is Ok),
        decreases old(tokens).all().len() - old(tokens).at(), 4nat,
    {
        let expr = match Expression::parse(tokens) {
            Ok(e) => e,
            Err(e) => {
                return Err(e);
            },
        };
        let order = if tokens.pop_if_token(&Token::Asc) {
            Order::Ascending
        } else if tokens.pop_if_token(&Token::Desc) {
            Order::Descending
        } else {
            // Ascending order by default
            Order::Ascending
        };
        Ok(OrderingTerm { expr, order })
    }

    /// Reads expressions to order by with commas between them.
    pub fn parse_comma_delimited(tokens: &mut Tokens) -> (r: RuleResult<Vec<OrderingTerm>>)
        requires
            old(tokens).wf(),
        ensures
            match r {
                Ok(v) => ordering_list_rule(
                    old(tokens).views(),
                    old(tokens).at() as int,
                ) matches Ok((x, p)) && x == ordering_terms_view(v@) && p == final(tokens).at(),
                Err(e) => ordering_list_rule(
                    old(tokens).views(),
                    old(tokens).at() as int,
                ) matches Err(x) && x == e@,
            },
            advanced(old(tokens), final(tokens), r is Ok),
        decreases old(tokens).all().len() - old(tokens).at(), 5nat,
    {
        let mut v: Vec<OrderingTerm> = Vec::new();
        let ghost all = tokens.views();
        let ghost start = tokens.at() as int;
        match OrderingTerm::parse(tokens) {
            Ok(value) => {
                proof {
                    assert(ordering_terms_view(v@.push(value))
                        =~= seq![ordering_term_view(&value)]);
                }
                v.push(value);
            },
            Err(e) => {
                return Err(e);
            },
        }
        loop
            invariant
                tokens.follows(old(tokens)),
                tokens.at() > old(tokens).at(),
                all == old(tokens).views(),
                start == old(tokens).at(),
                ordering_list_rule(all, start)
                    == ordering_list_more(all, tokens.at() as int, ordering_terms_view(v@)),
            ensures
                tokens.follows(old(tokens)),
                tokens.at() > old(tokens).at(),
                ordering_list_rule(all, start) matches Ok((x, p))
                    && x == ordering_terms_view(v@) && p == tokens.at(),
            decreases tokens.all().len() - tokens.at(),
        {
            if !tokens.pop_if_token(&Token::Comma) {
                break ;
            }
            match rule_result_not_first(OrderingTerm::parse(tokens)) {
                Ok(value) => {
                    proof {
                        assert(ordering_terms_view(v@.push(value))
                            =~= ordering_terms_view(v@).push(ordering_term_view(&value)));
                    }
                    v.push(value);
                },
                Err(e) => {
                    return Err(e);
                },
            }
        }
        Ok(v)
    }
}

/// Reads a list of identifiers in brackets where there is one.
pub fn parse_ident_list_lookahead(tokens: &mut Tokens) -> (r: RuleResult<Option<Vec<String>>>)
    requires
        old(tokens).wf(),
    ensures
        match r {
            Ok(v) => ident_list_option(
                old(tokens).views(),
                old(tokens).at() as int,
            ) matches Ok((x, p)) && x == option_strings_view(v) && p == final(tokens).at(),
            Err(e) => ident_list_option(
                old(tokens).views(),
                old(tokens).at() as int,
            ) matches Err(x) && x == e@,
        },
        final(tokens).follows(old(tokens)),
{
    let mut ahead = *tokens;
    match rule_result_lookahead(parse_ident_list(&mut ahead)) {
        Ok(Some(v)) => {
            *tokens = ahead;
            Ok(Some(v))
        },
        Ok(None) => Ok(None),
        Err(e) => {
            *tokens = ahead;
            Err(e)
        },
    }
}

impl InsertStatement {
    /// Reads an `INSERT`: its table, the columns it names where it names
    /// any, and its rows.
    pub fn parse(tokens: &mut Tokens) -> (r: RuleResult<InsertStatement>)
        requires
            old(tokens).wf(),
        ensures
            match r {
                Ok(v) => insert_rule(
                    old(tokens).views(),
                    old(tokens).at() as int,
                ) matches Ok((x, p)) && x == insert_statement_view(&v) && p == final(tokens).at(),
                Err(e) => insert_rule(
                    old(tokens).views(),
                    old(tokens).at() as int,
                ) matches Err(x) && x == e@,
            },
            advanced(old(tokens), final(tokens), r is Ok),
        decreases old(tokens).all().len() - old(tokens).at(), 0nat,
    {
        match tokens.pop_token_expecting(&Token::Insert, "INSERT") {
            Ok(_) => {},
            Err(e) => {
                return Err(e);
            },
        }
        match rule_result_not_first(tokens.pop_token_expecting(&Token::Into, "INTO")) {
            Ok(_) => {},
            Err(e) => {
                return Err(e);
            },
        }
        let table = match rule_result_not_first(Table::parse(tokens)) {
            Ok(t) => t,
            Err(e) => {
                return Err(e);
            },
        };
        let into_columns = match rule_result_not_first(parse_ident_list_lookahead(tokens)) {
            Ok(c) => c,
            Err(e) => {
                return Err(e);
            },
        };
        match rule_result_not_first(InsertSource::parse(tokens)) {
            Ok(source) => Ok(InsertStatement { table, into_columns, source }),
            Err(e) => Err(e),
        }
    }
}

impl InsertSource {
    /// Reads more rows of values, each behind a comma.
    fn parse_more_values(tokens: &mut Tokens, done: Vec<Vec<Expression>>) -> (r: RuleResult<
        Vec<Vec<Expression>>,
    >)
        requires
            old(tokens).wf(),
        ensures
            match r {
                Ok(v) => values_more(
                    old(tokens).views(),
                    old(tokens).at() as int,
                    expression_rows_view(done@),
                ) matches Ok((x, p)) && x == expression_rows_view(v@) && p == final(tokens).at(),
                Err(e) => values_more(
                    old(tokens).views(),
                    old(tokens).at() as int,
                    expression_rows_view(done@),
                ) matches Err(x) && x == e@,
            },
            final(tokens).follows(old(tokens)),
    {
        let mut v = done;
        let ghost all = tokens.views();
        let ghost start = tokens.at() as int;
        let ghost first = expression_rows_view(done@);
        proof {
            tokens.lemma_view();
        }
        loop
            invariant
                tokens.follows(old(tokens)),
                all == old(tokens).views(),
                start == old(tokens).at(),
                first == expression_rows_view(done@),
                values_more(all, start, first) == values_more(
                    all,
                    tokens.at() as int,
                    expression_rows_view(v@),
                ),
            ensures
                tokens.follows(old(tokens)),
                values_more(all, start, first) matches Ok((x, p)) && x == expression_rows_view(v@)
                    && p == tokens.at(),
            decreases tokens.all().len() - tokens.at(),
        {
            if !tokens.pop_if_token(&Token::Comma) {
                break ;
            }
            match rule_result_not_first(Expression::parse_parens_comma_delimited(tokens)) {
                Ok(value) => {
                    proof {
                        assert(expression_rows_view(v@.push(value)) =~= expression_rows_view(
                            v@,
                        ).push(expressions_view(value@)));
                    }
                    v.push(value);
                },
                Err(e) => {
                    return Err(e);
                },
            }
        }
        Ok(v)
    }

    /// Reads the rows of an `INSERT`: `VALUES` and rows in brackets with
    /// commas between them, or a `SELECT`.
    pub fn parse(tokens: &mut Tokens) -> (r: RuleResult<InsertSource>)
        requires
            old(tokens).wf(),
        ensures
            match r {
                Ok(v) => insert_source_rule(
                    old(tokens).views(),
                    old(tokens).at() as int,
                ) matches Ok((x, p)) && x == insert_source_view(&v) && p == final(tokens).at(),
                Err(e) => insert_source_rule(
                    old(tokens).views(),
                    old(tokens).at() as int,
                ) matches Err(x) && x == e@,
            },
            advanced(old(tokens), final(tokens), r is Ok),
        decreases old(tokens).all().len() - old(tokens).at(), 1nat,
    {
        if tokens.pop_if_token(&Token::Values) {
            let ghost all = tokens.views();
            let mut v: Vec<Vec<Expression>> = Vec::new();
            match rule_result_not_first(Expression::parse_parens_comma_delimited(tokens)) {
                Ok(value) => {
                    proof {
                        assert(expression_rows_view(v@.push(value)) =~= seq![
                            expressions_view(value@),
                        ]);
                    }
                    v.push(value);
                },
                Err(e) => {
                    return Err(e);
                },
            }
            match InsertSource::parse_more_values(tokens, v) {
                Ok(v) => Ok(InsertSource::Values(v)),
                Err(e) => Err(e),
            }
        } else {
            let mut ahead = *tokens;
            match rule_result_lookahead(SelectStatement::parse(&mut ahead)) {
                Ok(Some(select)) => {
                    *tokens = ahead;
                    Ok(InsertSource::Select(Box::new(select)))
                },
                Ok(None) => Err(tokens.expecting("VALUES or SELECT")),
                Err(e) => {
                    *tokens = ahead;
                    Err(e)
                },
            }
        }
    }
}

impl CreateTableColumnConstraintType {
    /// Reads `PRIMARY KEY`, `UNIQUE`, `NULL` or `REFERENCES` with its
    /// table.
    pub fn parse(tokens: &mut Tokens) -> (r: RuleResult<CreateTableColumnConstraintType>)
        requires
            old(tokens).wf(),
        ensures
            match r {
                Ok(v) => constraint_type_rule(
                    old(tokens).views(),
                    old(tokens).at() as int,
                ) matches Ok((x, p))
                    && x == create_table_column_constraint_type_view(&v) && p == final(tokens).at(),
                Err(e) => constraint_type_rule(
                    old(tokens).views(),
                    old(tokens).at() as int,
                ) matches Err(x) && x == e@,
            },
            advanced(old(tokens), final(tokens), r is Ok),
        decreases old(tokens).all().len() - old(tokens).at(), 0nat,
    {
        if tokens.pop_if_token(&Token::Primary) {
            match rule_result_not_first(tokens.pop_token_expecting(&Token::Key, "KEY after PRIMARY")) {
                Ok(_) => Ok(CreateTableColumnConstraintType::PrimaryKey),
                Err(e) => Err(e),
            }
        } else if tokens.pop_if_token(&Token::Unique) {
            Ok(CreateTableColumnConstraintType::Unique)
        } else if tokens.pop_if_token(&Token::Null) {
            Ok(CreateTableColumnConstraintType::Nullable)
        } else if tokens.pop_if_token(&Token::References) {
            let table = match rule_result_not_first(Table::parse(tokens)) {
                Ok(t) => t,
                Err(e) => {
                    return Err(e);
                },
            };
            match rule_result_not_first(parse_ident_list_lookahead(tokens)) {
                Ok(columns) => Ok(CreateTableColumnConstraintType::ForeignKey { table, columns }),
                Err(e) => Err(e),
            }
        } else {
            Err(tokens.expecting("column constraint"))
        }
    }
}

impl CreateTableColumnConstraint {
    /// Reads a constraint of a column, with or without a name.
    pub fn parse(tokens: &mut Tokens) -> (r: RuleResult<CreateTableColumnConstraint>)
        requires
            old(tokens).wf(),
        ensures
            match r {
                Ok(v) => constraint_rule(
                    old(tokens).views(),
                    old(tokens).at() as int,
                ) matches Ok((x, p))
                    && x == create_table_column_constraint_view(&v) && p == final(tokens).at(),
                Err(e) => constraint_rule(
                    old(tokens).views(),
                    old(tokens).at() as int,
                ) matches Err(x) && x == e@,
            },
            advanced(old(tokens), final(tokens), r is Ok),
        decreases old(tokens).all().len() - old(tokens).at(), 1nat,
    {
        if tokens.pop_if_token(&Token::Constraint) {
            let name = match rule_result_not_first(
                tokens.pop_ident_expecting("constraint name after CONSTRAINT"),
            ) {
                Ok(n) => n,
                Err(e) => {
                    return Err(e);
                },
            };
            match rule_result_not_first(CreateTableColumnConstraintType::parse(tokens)) {
                Ok(constraint) => Ok(CreateTableColumnConstraint { name: Some(name), constraint }),
                Err(e) => Err(e),
            }
        } else {
            match CreateTableColumnConstraintType::parse(tokens) {
                Ok(constraint) => Ok(CreateTableColumnConstraint { name: None, constraint }),
                Err(e) => Err(e),
            }
        }
    }

    /// Reads constraints as long as there are any.
    pub fn parse_series_star(tokens: &mut Tokens) -> (r: RuleResult<
        Vec<CreateTableColumnConstraint>,
    >)
        requires
            old(tokens).wf(),
        ensures
            match r {
                Ok(v) => constraint_series_rule(
                    old(tokens).views(),
                    old(tokens).at() as int,
                    Seq::empty(),
                ) matches Ok((x, p))
                    && x == create_table_column_constraints_view(v@) && p == final(tokens).at(),
                Err(e) => constraint_series_rule(
                    old(tokens).views(),
                    old(tokens).at() as int,
                    Seq::empty(),
                ) matches Err(x) && x == e@,
            },
            final(tokens).follows(old(tokens)),
        decreases old(tokens).all().len() - old(tokens).at(), 2nat,
    {
        let mut v: Vec<CreateTableColumnConstraint> = Vec::new();
        let ghost all = tokens.views();
        let ghost start = tokens.at() as int;
        proof {
            tokens.lemma_view();
            assert(create_table_column_constraints_view(v@) =~= Seq::empty());
        }
        loop
            invariant
                tokens.follows(old(tokens)),
                all == old(tokens).views(),
                start == old(tokens).at(),
                constraint_series_rule(all, start, Seq::empty()) == constraint_series_rule(
                    all,
                    tokens.at() as int,
                    create_table_column_constraints_view(v@),
                ),
            ensures
                tokens.follows(old(tokens)),
                constraint_series_rule(all, start, Seq::empty()) matches Ok((x, p))
                    && x == create_table_column_constraints_view(v@)
                    && p == tokens.at(),
            decreases tokens.all().len() - tokens.at(),
        {
            let mut ahead = *tokens;
            match rule_result_lookahead(CreateTableColumnConstraint::parse(&mut ahead)) {
                Ok(Some(value)) => {
                    *tokens = ahead;
                    proof {
                        assert(create_table_column_constraints_view(v@.push(value))
                            =~= create_table_column_constraints_view(v@).push(create_table_column_constraint_view(&value)));
                    }
                    v.push(value);
                },
                Ok(None) => {
                    break ;
                },
                Err(e) => {
                    *tokens = ahead;
                    return Err(e);
                },
            }
        }
        Ok(v)
    }
}

impl CreateTableColumn {
    /// Reads a column of a table: its name, its type with a size or an
    /// array size where it has one, and its constraints.
    pub fn parse(tokens: &mut Tokens) -> (r: RuleResult<CreateTableColumn>)
        requires
            old(tokens).wf(),
        ensures
            match r {
                Ok(v) => create_column_rule(
                    old(tokens).views(),
                    old(tokens).at() as int,
                ) matches Ok((x, p))
                    && x == create_table_column_view(&v) && p == final(tokens).at(),
                Err(e) => create_column_rule(
                    old(tokens).views(),
                    old(tokens).at() as int,
                ) matches Err(x) && x == e@,
            },
            advanced(old(tokens), final(tokens), r is Ok),
        decreases old(tokens).all().len() - old(tokens).at(), 0nat,
    {
        let column_name = match tokens.pop_ident_expecting("column name") {
            Ok(n) => n,
            Err(e) => {
                return Err(e);
            },
        };
        let column_type = match rule_result_not_first(tokens.pop_ident_expecting("type name")) {
            Ok(n) => n,
            Err(e) => {
                return Err(e);
            },
        };
        let type_size = if tokens.pop_if_token(&Token::LeftParen) {
            let x = match tokens.pop_number_expecting("column type size") {
                Ok(x) => x,
                Err(e) => {
                    return Err(e);
                },
            };
            match tokens.pop_token_expecting(&Token::RightParen, ")") {
                Ok(_) => {},
                Err(e) => {
                    return Err(e);
                },
            }
            Some(x)
        } else {
            None
        };
        let type_array_size = if tokens.pop_if_token(&Token::LeftBracket) {
            if tokens.pop_if_token(&Token::RightBracket) {
                // Dynamic array
                Some(None)
            } else {
                let x = match tokens.pop_number_expecting("column array size") {
                    Ok(x) => x,
                    Err(e) => {
                        return Err(e);
                    },
                };
                match tokens.pop_token_expecting(&Token::RightBracket, "]") {
                    Ok(_) => {},
                    Err(e) => {
                        return Err(e);
                    },
                }
                Some(Some(x))
            }
        } else {
            None
        };
        match rule_result_not_first(CreateTableColumnConstraint::parse_series_star(tokens)) {
            Ok(constraints) => Ok(
                CreateTableColumn {
                    column_name,
                    column_type,
                    type_size,
                    type_array_size,
                    constraints,
                },
            ),
            Err(e) => Err(e),
        }
    }

    /// Reads columns with commas between them.
    pub fn parse_comma_delimited(tokens: &mut Tokens) -> (r: RuleResult<Vec<CreateTableColumn>>)
        requires
            old(tokens).wf(),
        ensures
            match r {
                Ok(v) => create_column_list_rule(
                    old(tokens).views(),
                    old(tokens).at() as int,
                ) matches Ok((x, p))
                    && x == create_table_columns_view(v@) && p == final(tokens).at(),
                Err(e) => create_column_list_rule(
                    old(tokens).views(),
                    old(tokens).at() as int,
                ) matches Err(x) && x == e@,
            },
            advanced(old(tokens), final(tokens), r is Ok),
        decreases old(tokens).all().len() - old(tokens).at(), 1nat,
    {
        let mut v: Vec<CreateTableColumn> = Vec::new();
        let ghost all = tokens.views();
        let ghost start = tokens.at() as int;
        match CreateTableColumn::parse(tokens) {
            Ok(value) => {
                proof {
                    assert(create_table_columns_view(v@.push(value))
                        =~= seq![create_table_column_view(&value)]);
                }
                v.push(value);
            },
            Err(e) => {
                return Err(e);
            },
        }
        loop
            invariant
                tokens.follows(old(tokens)),
                tokens.at() > old(tokens).at(),
                all == old(tokens).views(),
                start == old(tokens).at(),
                create_column_list_rule(all, start)
                    == create_column_list_more(all, tokens.at() as int, create_table_columns_view(v@)),
            ensures
                tokens.follows(old(tokens)),
                tokens.at() > old(tokens).at(),
                create_column_list_rule(all, start) matches Ok((x, p))
                    && x == create_table_columns_view(v@) && p == tokens.at(),
            decreases tokens.all().len() - tokens.at(),
        {
            if !tokens.pop_if_token(&Token::Comma) {
                break ;
            }
            match rule_result_not_first(CreateTableColumn::parse(tokens)) {
                Ok(value) => {
                    proof {
                        assert(create_table_columns_view(v@.push(value))
                            =~= create_table_columns_view(v@).push(create_table_column_view(&value)));
                    }
                    v.push(value);
                },
                Err(e) => {
                    return Err(e);
                },
            }
        }
        Ok(v)
    }
}

impl CreateTableStatement {
    /// Reads `TABLE`, the name of the table, and its columns in
    /// brackets.
    pub fn parse(tokens: &mut Tokens) -> (r: RuleResult<CreateTableStatement>)
        requires
            old(tokens).wf(),
        ensures
            match r {
                Ok(v) => create_table_rule(
                    old(tokens).views(),
                    old(tokens).at() as int,
                ) matches Ok((x, p))
                    && x == create_table_statement_view(&v) && p == final(tokens).at(),
                Err(e) => create_table_rule(
                    old(tokens).views(),
                    old(tokens).at() as int,
                ) matches Err(x) && x == e@,
            },
            advanced(old(tokens), final(tokens), r is Ok),
        decreases old(tokens).all().len() - old(tokens).at(), 0nat,
    {
        match tokens.pop_token_expecting(&Token::Table, "TABLE") {
            Ok(_) => {},
            Err(e) => {
                return Err(e);
            },
        }
        let table = match rule_result_not_first(Table::parse(tokens)) {
            Ok(t) => t,
            Err(e) => {
                return Err(e);
            },
        };
        match rule_result_not_first(
            tokens.pop_token_expecting(&Token::LeftParen, "( after table name"),
        ) {
            Ok(_) => {},
            Err(e) => {
                return Err(e);
            },
        }
        let columns = match rule_result_not_first(CreateTableColumn::parse_comma_delimited(tokens)) {
            Ok(c) => c,
            Err(e) => {
                return Err(e);
            },
        };
        match rule_result_not_first(
            tokens.pop_token_expecting(
                &Token::RightParen,
                ") after table columns and constraints",
            ),
        ) {
            Ok(_) => Ok(CreateTableStatement { table, columns }),
            Err(e) => Err(e),
        }
    }
}

impl CreateStatement {
    /// Reads a `CREATE`.
    pub fn parse(tokens: &mut Tokens) -> (r: RuleResult<CreateStatement>)
        requires
            old(tokens).wf(),
        ensures
            match r {
                Ok(v) => create_rule(
                    old(tokens).views(),
                    old(tokens).at() as int,
                ) matches Ok((x, p)) && x == create_statement_view(&v) && p == final(tokens).at(),
                Err(e) => create_rule(
                    old(tokens).views(),
                    old(tokens).at() as int,
                ) matches Err(x) && x == e@,
            },
            advanced(old(tokens), final(tokens), r is Ok),
        decreases old(tokens).all().len() - old(tokens).at(), 0nat,
    {
        match tokens.pop_token_expecting(&Token::Create, "CREATE") {
            Ok(_) => {},
            Err(e) => {
                return Err(e);
            },
        }
        let mut ahead = *tokens;
        match rule_result_lookahead(CreateTableStatement::parse(&mut ahead)) {
            Ok(Some(stmt)) => {
                *tokens = ahead;
                Ok(CreateStatement::Table(stmt))
            },
            Ok(None) => Err(tokens.expecting("TABLE")),
            Err(e) => {
                *tokens = ahead;
                Err(e)
            },
        }
    }
}

impl ExplainStatement {
    /// Reads an `EXPLAIN` with its `SELECT`.
    pub fn parse(tokens: &mut Tokens) -> (r: RuleResult<ExplainStatement>)
        requires
            old(tokens).wf(),
        ensures
            match r {
                Ok(v) => explain_rule(
                    old(tokens).views(),
                    old(tokens).at() as int,
                ) matches Ok((x, p)) && x == explain_statement_view(&v) && p == final(tokens).at(),
                Err(e) => explain_rule(
                    old(tokens).views(),
                    old(tokens).at() as int,
                ) matches Err(x) && x == e@,
            },
            advanced(old(tokens), final(tokens), r is Ok),
        decreases old(tokens).all().len() - old(tokens).at(), 0nat,
    {
        match tokens.pop_token_expecting(&Token::Explain, "EXPLAIN") {
            Ok(_) => {},
            Err(e) => {
                return Err(e);
            },
        }
        let mut ahead = *tokens;
        match rule_result_lookahead(SelectStatement::parse(&mut ahead)) {
            Ok(Some(stmt)) => {
                *tokens = ahead;
                Ok(ExplainStatement::Select(stmt))
            },
            Ok(None) => Err(tokens.expecting("SELECT statement")),
            Err(e) => {
                *tokens = ahead;
                Err(e)
            },
        }
    }
}

impl Statement {
    /// Reads a statement where there is one: a `SELECT`, an `INSERT`, a
    /// `CREATE` or an `EXPLAIN`.
    pub fn parse_lookahead(tokens: &mut Tokens) -> (r: RuleResult<Option<Statement>>)
        requires
            old(tokens).wf(),
        ensures
            final(tokens).follows(old(tokens)),
            r matches Ok(Some(_)) ==> final(tokens).at() > old(tokens).at(),
            match r {
                Ok(Some(v)) => statement_option(old(tokens).views(), old(tokens).at() as int)
                    matches Ok(Some((x, p))) && x == statement_view(&v) && p == final(tokens).at(),
                Ok(None) => statement_option(old(tokens).views(), old(tokens).at() as int) matches Ok(
                    None,
                ) && final(tokens).at() == old(tokens).at(),
                Err(e) => statement_option(old(tokens).views(), old(tokens).at() as int) matches Err(
                    x,
                ) && x == e@,
            },
    {
        let mut ahead = *tokens;
        match rule_result_lookahead(SelectStatement::parse(&mut ahead)) {
            Ok(Some(select)) => {
                *tokens = ahead;
                return Ok(Some(Statement::Select(select)));
            },
            Ok(None) => {},
            Err(e) => {
                *tokens = ahead;
                return Err(e);
            },
        }
        let mut ahead = *tokens;
        match rule_result_lookahead(InsertStatement::parse(&mut ahead)) {
            Ok(Some(insert)) => {
                *tokens = ahead;
                return Ok(Some(Statement::Insert(insert)));
            },
            Ok(None) => {},
            Err(e) => {
                *tokens = ahead;
                return Err(e);
            },
        }
        let mut ahead = *tokens;
        match rule_result_lookahead(CreateStatement::parse(&mut ahead)) {
            Ok(Some(create)) => {
                *tokens = ahead;
                return Ok(Some(Statement::Create(create)));
            },
            Ok(None) => {},
            Err(e) => {
                *tokens = ahead;
                return Err(e);
            },
        }
        let mut ahead = *tokens;
        match rule_result_lookahead(ExplainStatement::parse(&mut ahead)) {
            Ok(Some(explain)) => {
                *tokens = ahead;
                Ok(Some(Statement::Explain(explain)))
            },
            Ok(None) => Ok(None),
            Err(e) => {
                *tokens = ahead;
                Err(e)
            },
        }
    }

    /// Reads a statement.
    pub fn parse(tokens: &mut Tokens) -> (r: RuleResult<Statement>)
        requires
            old(tokens).wf(),
        ensures
            match r {
                Ok(v) => statement_rule(
                    old(tokens).views(),
                    old(tokens).at() as int,
                ) matches Ok((x, p)) && x == statement_view(&v) && p == final(tokens).at(),
                Err(e) => statement_rule(
                    old(tokens).views(),
                    old(tokens).at() as int,
                ) matches Err(x) && x == e@,
            },
            advanced(old(tokens), final(tokens), r is Ok),
    {
        match Statement::parse_lookahead(tokens) {
            Ok(Some(s)) => Ok(s),
            Ok(None) => Err(tokens.expecting("SELECT, INSERT, CREATE, or EXPLAIN statement")),
            Err(e) => Err(e),
        }
    }
}

/// Reads one statement, with or without a semicolon behind it, from all
/// tokens.
pub fn parse_statement(tokens_slice: &[Token]) -> (r: Result<Statement, RuleError>)
    ensures
        match r {
            Ok(v) => one_statement(tokens_view(tokens_slice@)) matches Ok(x) && x == statement_view(&v),
            Err(e) => one_statement(tokens_view(tokens_slice@)) matches Err(x) && x == e@,
        },
{
    let mut tokens = Tokens::new(tokens_slice);
    let statement = match Statement::parse(&mut tokens) {
        Ok(s) => s,
        Err(e) => {
            return Err(e);
        },
    };
    // Pop a semicolon if it's there
    let _ = tokens.pop_if_token(&Token::Semicolon);
    match tokens.expect_no_more_tokens() {
        Ok(_) => Ok(statement),
        Err(e) => Err(e),
    }
}

/// Parses a series of statements, each with a semicolon behind it, from
/// all tokens.
pub fn parse_statements(tokens_slice: &[Token]) -> (r: Result<Vec<Statement>, RuleError>)
    ensures
        match r {
            Ok(v) => all_statements(tokens_view(tokens_slice@)) matches Ok(x) && x == statements_view(v@),
            Err(e) => all_statements(tokens_view(tokens_slice@)) matches Err(x) && x == e@,
        },
{
    let mut tokens = Tokens::new(tokens_slice);
    let mut statements: Vec<Statement> = Vec::new();
    let ghost all = tokens_view(tokens_slice@);
    proof {
        assert(statements_view(statements@) =~= Seq::empty());
    }
    loop
        invariant
            tokens.wf(),
            tokens.views() == all,
            tokens.at() <= all.len(),
            all == tokens_view(tokens_slice@),
            all_statements(all) == statements_from(
                all,
                tokens.at() as int,
                statements_view(statements@),
            ),
        ensures
            tokens.wf(),
            tokens.views() == all,
            all_statements(all) == statements_from(
                all,
                tokens.at() as int,
                statements_view(statements@),
            ),
            statement_option(all, tokens.at() as int) matches Ok(None),
        decreases all.len() - tokens.at(),
    {
        let ghost before = tokens.at() as int;
        let ghost done = statements_view(statements@);
        match Statement::parse_lookahead(&mut tokens) {
            Ok(Some(stmt)) => {
                proof {
                    assert(statements_view(statements@.push(stmt)) =~= done.push(
                        statement_view(&stmt),
                    ));
                }
                statements.push(stmt);
                match tokens.pop_token_expecting(&Token::Semicolon, "semicolon") {
                    Ok(_) => {},
                    Err(e) => {
                        return Err(e);
                    },
                }
            },
            Ok(None) => {
                break ;
            },
            Err(e) => {
                return Err(e);
            },
        }
    }
    match tokens.expect_no_more_tokens() {
        Ok(_) => Ok(statements),
        Err(e) => Err(e),
    }
}

} // verus!
