use llamadb::sqlsyntax::ast::{
    BinaryOp, Expression, From, InsertSource, JoinOperator, SelectColumn, Statement,
    TableOrSubquery,
};
use llamadb::sqlsyntax::{parse_statement, parse_statements, SyntaxError};

fn parse(query: &str) -> Statement {
    parse_statement(query).unwrap()
}

#[test]
fn test_sql_parser() {
    parse("SELECT *, (name + 4), count(*) AS amount FROM (SELECT * FROM foo) subq, table1 GROUP BY name HAVING count(*) > 5;");
    parse("SELECT * FROM foo INNER JOIN bar ON foo.id = bar.fooId ORDER BY a DESC, b;");

    parse("INSERT INTO table1 VALUES (1, 2), (3, 4), (5, 6);");
    parse("INSERT INTO table1 (a, b) VALUES ('foo' || 'bar', 2);");
    parse("INSERT INTO table1 SELECT * FROM foo;");

    parse("CREATE TABLE test (
        foo     INT CONSTRAINT pk PRIMARY KEY,
        bar     VARCHAR(256),
        data    BYTE[32] NULL UNIQUE
    );");
}

#[test]
fn test_sql_parser_precedence() {
    // a + b * c = d and e  reads as  ((a + (b * c)) = d) and e
    let stmt = parse("SELECT a + b * c = d AND e FROM t");
    let select = match stmt {
        Statement::Select(s) => s,
        _ => panic!(),
    };
    assert_eq!(select.result_columns.len(), 1);
    let expr = match &select.result_columns[0] {
        SelectColumn::Expr { expr, alias } => {
            assert!(alias.is_none());
            expr
        }
        SelectColumn::AllColumns => panic!(),
    };
    let (lhs, rhs) = match expr {
        Expression::BinaryOp { lhs, rhs, op } => {
            assert_eq!(*op, BinaryOp::And);
            (lhs, rhs)
        }
        _ => panic!(),
    };
    assert!(matches!(&**rhs, Expression::Ident(n) if n == "e"));
    let sum = match &**lhs {
        Expression::BinaryOp { lhs, rhs, op } => {
            assert_eq!(*op, BinaryOp::Equal);
            assert!(matches!(&**rhs, Expression::Ident(n) if n == "d"));
            lhs
        }
        _ => panic!(),
    };
    match &**sum {
        Expression::BinaryOp { lhs, rhs, op } => {
            assert_eq!(*op, BinaryOp::Add);
            assert!(matches!(&**lhs, Expression::Ident(n) if n == "a"));
            assert!(matches!(&**rhs, Expression::BinaryOp { op: BinaryOp::Multiply, .. }));
        }
        _ => panic!(),
    }
}

#[test]
fn test_sql_parser_left_associative() {
    // a - b - c  reads as  (a - b) - c
    let stmt = parse("SELECT a - b - c FROM t");
    let select = match stmt {
        Statement::Select(s) => s,
        _ => panic!(),
    };
    match &select.result_columns[0] {
        SelectColumn::Expr { expr: Expression::BinaryOp { lhs, rhs, op }, .. } => {
            assert_eq!(*op, BinaryOp::Subtract);
            assert!(matches!(&**rhs, Expression::Ident(n) if n == "c"));
            assert!(matches!(&**lhs, Expression::BinaryOp { op: BinaryOp::Subtract, .. }));
        }
        _ => panic!(),
    }
}

#[test]
fn test_sql_parser_from() {
    let select = match parse("SELECT * FROM a, (SELECT x FROM b) c") {
        Statement::Select(s) => s,
        _ => panic!(),
    };
    match &select.from {
        From::Cross(tables) => {
            assert_eq!(tables.len(), 2);
            assert!(matches!(&tables[0], TableOrSubquery::Table { alias: None, .. }));
            assert!(matches!(&tables[1], TableOrSubquery::Subquery { alias, .. } if alias == "c"));
        }
        _ => panic!(),
    }
    let select = match parse("SELECT * FROM a LEFT OUTER JOIN b ON a.x = b.x INNER JOIN c ON 1") {
        Statement::Select(s) => s,
        _ => panic!(),
    };
    match &select.from {
        From::Join { joins, .. } => {
            assert_eq!(joins.len(), 2);
            assert_eq!(joins[0].operator, JoinOperator::Left);
            assert_eq!(joins[1].operator, JoinOperator::Inner);
        }
        _ => panic!(),
    }
}

#[test]
fn test_sql_parser_insert_rows() {
    match parse("INSERT INTO t (a, b) VALUES (1, 'x'), (2, NULL)") {
        Statement::Insert(insert) => {
            assert_eq!(insert.table.table_name, "t");
            assert_eq!(insert.into_columns, Some(vec!["a".to_string(), "b".to_string()]));
            match insert.source {
                InsertSource::Values(rows) => {
                    assert_eq!(rows.len(), 2);
                    assert!(matches!(&rows[1][1], Expression::Null));
                }
                _ => panic!(),
            }
        }
        _ => panic!(),
    }
}

#[test]
fn test_sql_parser_errors() {
    assert!(matches!(parse_statement("SELECT FROM"), Err(SyntaxError::Parser(_))));
    assert!(matches!(parse_statement("SELECT a FROM t extra tokens"), Err(SyntaxError::Parser(_))));
    assert!(matches!(parse_statement("SELECT ~"), Err(SyntaxError::Lexer(_))));
    assert!(matches!(parse_statement(""), Err(SyntaxError::Parser(_))));
    let e = parse_statement("SELECT a").unwrap_err();
    assert_eq!(e.to_string(), "Expected FROM; got no more tokens");
    let e = parse_statement("SELECT a b c").unwrap_err();
    assert_eq!(e.to_string(), "Expected FROM; got Ident(\"c\")");
}

#[test]
fn test_sql_parser_statements() {
    let statements = parse_statements("CREATE TABLE t (a INT); INSERT INTO t VALUES (1); SELECT a FROM t;").unwrap();
    assert_eq!(statements.len(), 3);
    assert!(matches!(statements[0], Statement::Create(_)));
    assert!(matches!(statements[1], Statement::Insert(_)));
    assert!(matches!(statements[2], Statement::Select(_)));
    assert!(parse_statements("SELECT a FROM t").is_err());
    assert_eq!(parse_statements("").unwrap().len(), 0);
    assert!(matches!(parse("EXPLAIN SELECT a FROM t"), Statement::Explain(_)));
}
