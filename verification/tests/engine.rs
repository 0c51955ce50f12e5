use llamadb::floatops::{FloatModel, FloatOps};
use llamadb::sqlsyntax::{parse_statement, parse_statements};
use llamadb::tempdb::{ExecuteStatementResponse, TempDb};
use llamadb::types::{F64NoNaN, Variant};

struct Host;

impl FloatOps for Host {
    // Stands for this host in the contracts of the library; nothing calls it.
    fn model(&self) -> FloatModel {
        unreachable!()
    }

    fn add(&self, a: u64, b: u64) -> u64 {
        (f64::from_bits(a) + f64::from_bits(b)).to_bits()
    }

    fn mul(&self, a: u64, b: u64) -> u64 {
        (f64::from_bits(a) * f64::from_bits(b)).to_bits()
    }

    fn div(&self, a: u64, b: u64) -> u64 {
        (f64::from_bits(a) / f64::from_bits(b)).to_bits()
    }

    fn from_unsigned(&self, value: u64) -> u64 {
        (value as f64).to_bits()
    }

    fn from_signed(&self, value: i64) -> u64 {
        (value as f64).to_bits()
    }

    fn to_unsigned(&self, bits: u64) -> u64 {
        f64::from_bits(bits) as u64
    }

    fn to_signed(&self, bits: u64) -> i64 {
        f64::from_bits(bits) as i64
    }

    fn parse(&self, text: &str) -> Option<u64> {
        match text.parse::<f64>() {
            Ok(v) => Some(v.to_bits()),
            Err(_) => None,
        }
    }

    fn format(&self, bits: u64) -> String {
        format!("{}", f64::from_bits(bits))
    }
}

fn float(v: f64) -> Variant {
    Variant::Float(F64NoNaN::new(v.to_bits()).unwrap())
}

fn sint(v: i64) -> Variant {
    Variant::SignedInteger(v)
}

fn uint(v: u64) -> Variant {
    Variant::UnsignedInteger(v)
}

fn text(v: &str) -> Variant {
    Variant::StringLiteral(v.to_string())
}

fn run(db: &mut TempDb, sql: &str) {
    for statement in parse_statements(sql).unwrap() {
        db.execute_statement(statement, &Host).unwrap();
    }
}

fn select(db: &mut TempDb, sql: &str) -> (Vec<String>, Vec<Vec<Variant>>) {
    match db.execute_statement(parse_statement(sql).unwrap(), &Host).unwrap() {
        ExecuteStatementResponse::Select { column_names, rows } => (column_names, rows),
        _ => panic!(),
    }
}

fn rows(db: &mut TempDb, sql: &str) -> Vec<Vec<Variant>> {
    select(db, sql).1
}

fn fails(db: &mut TempDb, sql: &str) -> String {
    match db.execute_statement(parse_statement(sql).unwrap(), &Host) {
        Ok(_) => panic!(),
        Err(e) => e,
    }
}

#[test]
fn test_projection_and_predicate() {
    let mut db = TempDb::new();
    run(&mut db, "CREATE TABLE t(a int, b string); INSERT INTO t VALUES (1, 'x'), (2, 'y'), (3, 'x');");
    let (names, found) = select(&mut db, "SELECT a FROM t WHERE b = 'x';");
    assert_eq!(names, vec!["a".to_string()]);
    assert_eq!(found, vec![vec![sint(1)], vec![sint(3)]]);
}

#[test]
fn test_cross_product() {
    let mut db = TempDb::new();
    run(&mut db, "CREATE TABLE l(x int); INSERT INTO l VALUES (1),(2); CREATE TABLE r(y int); INSERT INTO r VALUES (10),(20);");
    assert_eq!(
        rows(&mut db, "SELECT x, y FROM l, r;"),
        vec![
            vec![sint(1), sint(10)],
            vec![sint(1), sint(20)],
            vec![sint(2), sint(10)],
            vec![sint(2), sint(20)],
        ]
    );
}

#[test]
fn test_left_join_with_no_match() {
    let mut db = TempDb::new();
    run(&mut db, "CREATE TABLE l(x int); INSERT INTO l VALUES (1),(2);");
    run(&mut db, "CREATE TABLE r2(x int, z string); INSERT INTO r2 VALUES (1, 'hit');");
    assert_eq!(
        rows(&mut db, "SELECT l.x, r2.z FROM l LEFT JOIN r2 ON l.x = r2.x;"),
        vec![vec![sint(1), text("hit")], vec![sint(2), Variant::Null]]
    );
}

#[test]
fn test_inner_join() {
    let mut db = TempDb::new();
    run(&mut db, "CREATE TABLE l(x int); INSERT INTO l VALUES (1),(2),(3);");
    run(&mut db, "CREATE TABLE r(x int, z string); INSERT INTO r VALUES (1, 'one'), (3, 'three'), (3, 'drei');");
    assert_eq!(
        rows(&mut db, "SELECT l.x, z FROM l INNER JOIN r ON l.x = r.x;"),
        vec![
            vec![sint(1), text("one")],
            vec![sint(3), text("three")],
            vec![sint(3), text("drei")],
        ]
    );
}

#[test]
fn test_aggregate_without_group_by() {
    let mut db = TempDb::new();
    run(&mut db, "CREATE TABLE n(v int NULL); INSERT INTO n VALUES (1),(2),(3),(NULL);");
    assert_eq!(
        rows(&mut db, "SELECT count(v), sum(v), avg(v), count(*) FROM n;"),
        vec![vec![uint(3), float(6.0), float(2.0), uint(4)]]
    );
    assert_eq!(
        rows(&mut db, "SELECT min(v), max(v) FROM n;"),
        vec![vec![sint(1), sint(3)]]
    );
}

#[test]
fn test_aggregate_over_no_rows() {
    let mut db = TempDb::new();
    run(&mut db, "CREATE TABLE n(v int NULL);");
    assert_eq!(
        rows(&mut db, "SELECT count(v), sum(v), avg(v), min(v), max(v), count(*) FROM n;"),
        vec![vec![uint(0), Variant::Null, Variant::Null, Variant::Null, Variant::Null, uint(0)]]
    );
    // Nothing is grouped where something is grouped by and there are no rows.
    assert_eq!(rows(&mut db, "SELECT count(*) FROM n GROUP BY v;"), Vec::<Vec<Variant>>::new());
}

#[test]
fn test_null_is_not_stored_where_it_is_not_allowed() {
    let mut db = TempDb::new();
    run(&mut db, "CREATE TABLE n(v int);");
    assert_eq!(
        fails(&mut db, "INSERT INTO n VALUES (NULL)"),
        "cannot insert NULL into column that doesn't allow NULL"
    );
    assert_eq!(rows(&mut db, "SELECT v FROM n"), Vec::<Vec<Variant>>::new());
}

#[test]
fn test_group_by_and_having() {
    let mut db = TempDb::new();
    run(&mut db, "CREATE TABLE s(k string, v int); INSERT INTO s VALUES ('a',1),('a',2),('b',5),('c',1);");
    assert_eq!(
        rows(&mut db, "SELECT k, sum(v) FROM s GROUP BY k HAVING sum(v) > 2;"),
        vec![vec![text("a"), float(3.0)], vec![text("b"), float(5.0)]]
    );
    // One row for each key, in the order in which the keys came.
    assert_eq!(
        rows(&mut db, "SELECT k, count(*) FROM s GROUP BY k;"),
        vec![
            vec![text("a"), uint(2)],
            vec![text("b"), uint(1)],
            vec![text("c"), uint(1)],
        ]
    );
}

#[test]
fn test_group_by_null_key() {
    let mut db = TempDb::new();
    run(&mut db, "CREATE TABLE s(k int NULL, v int); INSERT INTO s VALUES (NULL,1),(1,2),(NULL,5);");
    // NULL is a key like any other.
    assert_eq!(
        rows(&mut db, "SELECT k, sum(v) FROM s GROUP BY k;"),
        vec![vec![Variant::Null, float(6.0)], vec![sint(1), float(2.0)]]
    );
}

#[test]
fn test_scalar_subquery() {
    let mut db = TempDb::new();
    run(&mut db, "CREATE TABLE t(a int); INSERT INTO t VALUES (1),(2),(3);");
    assert_eq!(
        rows(&mut db, "SELECT a, (SELECT count(*) FROM t) FROM t WHERE a = 2;"),
        vec![vec![sint(2), uint(3)]]
    );
    assert_eq!(
        fails(&mut db, "SELECT a, (SELECT a FROM t WHERE a < 3) FROM t WHERE a = 2;"),
        "execution type mismatch"
    );
    assert_eq!(
        fails(&mut db, "SELECT a, (SELECT a FROM t WHERE a > 3) FROM t WHERE a = 2;"),
        "execution type mismatch"
    );
}

#[test]
fn test_subquery_in_from() {
    let mut db = TempDb::new();
    run(&mut db, "CREATE TABLE t(a int, b int); INSERT INTO t VALUES (1, 10),(2, 20),(3, 30);");
    let (names, found) = select(&mut db, "SELECT q.b, a FROM (SELECT a, b FROM t WHERE a > 1) q;");
    assert_eq!(names, vec!["_0".to_string(), "a".to_string()]);
    assert_eq!(found, vec![vec![sint(20), sint(2)], vec![sint(30), sint(3)]]);
}

#[test]
fn test_select_all_columns_and_names() {
    let mut db = TempDb::new();
    run(&mut db, "CREATE TABLE t(a int, b string); INSERT INTO t VALUES (1, 'x');");
    let (names, found) = select(&mut db, "SELECT *, a + 1, b || 'y' AS c, -a FROM t;");
    assert_eq!(
        names,
        vec!["a".to_string(), "b".to_string(), "_0".to_string(), "c".to_string(), "_1".to_string()]
    );
    assert_eq!(found, vec![vec![sint(1), text("x"), sint(2), text("xy"), sint(-1)]]);
}

#[test]
fn test_compile_errors() {
    let mut db = TempDb::new();
    run(&mut db, "CREATE TABLE t(a int, b string); CREATE TABLE u(a int);");
    assert_eq!(fails(&mut db, "SELECT a FROM nowhere"), "table does not exist: nowhere");
    assert_eq!(fails(&mut db, "SELECT c FROM t"), "column does not exist: c");
    assert_eq!(fails(&mut db, "SELECT a FROM t, u"), "ambiguous column name: a");
    assert_eq!(fails(&mut db, "SELECT `a-b` FROM t"), "bad identifier: a-b");
    assert_eq!(fails(&mut db, "SELECT nosuch(a) FROM t"), "unknown function name: nosuch");
    assert_eq!(
        fails(&mut db, "SELECT sum(a, a) FROM t"),
        "aggregate function requires exactly one argument"
    );
    assert_eq!(
        fails(&mut db, "SELECT sum(1) FROM t"),
        "aggregate function contains no query to aggregate"
    );
    assert_eq!(
        fails(&mut db, "SELECT sum(*) FROM t"),
        "aggregate (*) function must be `count` (found sum)"
    );
    assert_eq!(fails(&mut db, "SELECT a FROM t ORDER BY a"), "ORDER BY is not implemented");
    // a qualified name tells the two columns apart
    assert_eq!(rows(&mut db, "SELECT t.a, u.a FROM t, u"), Vec::<Vec<Variant>>::new());
}

#[test]
fn test_division_by_zero_and_null_logic() {
    let mut db = TempDb::new();
    run(&mut db, "CREATE TABLE t(a int); INSERT INTO t VALUES (6);");
    assert_eq!(
        rows(&mut db, "SELECT a / 0, a / 4, a * 2 - 1, NULL = NULL, a = NULL, NULL AND a < 0, NULL OR a > 0 FROM t"),
        vec![vec![Variant::Null, sint(1), sint(11), Variant::Null, Variant::Null, uint(0), uint(1)]]
    );
    assert_eq!(
        rows(&mut db, "SELECT 1.5 + 2, 3 + 1.5, 1.0 / 0.0, 0.5 * 4 FROM t"),
        vec![vec![float(3.5), uint(4), Variant::Null, float(2.0)]]
    );
    // A predicate that is NULL lets no row through.
    assert_eq!(rows(&mut db, "SELECT a FROM t WHERE a = NULL"), Vec::<Vec<Variant>>::new());
}

#[test]
fn test_create_table_errors() {
    let mut db = TempDb::new();
    run(&mut db, "CREATE TABLE t(a int);");
    assert_eq!(fails(&mut db, "CREATE TABLE T(b int)"), "Table t already exists");
    assert_eq!(fails(&mut db, "CREATE TABLE u(b nosuchtype)"), "nosuchtype is not a valid column type");
    assert_eq!(fails(&mut db, "CREATE TABLE u(b u12)"), "u12 is not a valid column type");
    assert_eq!(db.tables.len(), 1);
    run(&mut db, "CREATE TABLE u(a byte, b byte[], c byte[4], d u16, e i64, f double, g varchar NULL);");
    assert_eq!(db.tables.len(), 2);
    assert_eq!(db.tables[1].columns.len(), 7);
    assert!(db.tables[1].columns[6].nullable);
    assert!(!db.tables[1].columns[5].nullable);
    assert_eq!(db.tables[1].columns[3].offset, 3);
    assert_eq!(db.tables[1].next_rowid, 1);
}

#[test]
fn test_insert_errors_and_columns() {
    let mut db = TempDb::new();
    run(&mut db, "CREATE TABLE t(a int, b string NULL, c u8);");
    assert_eq!(fails(&mut db, "INSERT INTO nowhere VALUES (1)"), "Could not find table named nowhere");
    assert_eq!(fails(&mut db, "INSERT INTO t (a, x) VALUES (1, 2)"), "column x not in table");
    assert_eq!(
        fails(&mut db, "INSERT INTO t VALUES (1, 2)"),
        "INSERT value contains wrong amount of columns"
    );
    assert_eq!(
        fails(&mut db, "INSERT INTO t SELECT * FROM t"),
        "INSERT from SELECT is not implemented"
    );
    assert_eq!(fails(&mut db, "INSERT INTO t VALUES (x, 2, 3)"), "column does not exist: x");
    // b gets NULL, c its default
    run(&mut db, "INSERT INTO t (a) VALUES (7);");
    run(&mut db, "INSERT INTO t (c, a, b) VALUES (300, 8, 'text');");
    assert_eq!(
        rows(&mut db, "SELECT a, b, c FROM t"),
        vec![
            vec![sint(7), Variant::Null, uint(0)],
            vec![sint(8), text("text"), uint(44)],
        ]
    );
    assert_eq!(db.tables[0].next_rowid, 3);
    match db.execute_statement(parse_statement("INSERT INTO t VALUES (1, 'a', 2), (3, 'b', 4)").unwrap(), &Host) {
        Ok(ExecuteStatementResponse::Inserted(n)) => assert_eq!(n, 2),
        _ => panic!(),
    }
}

#[test]
fn test_row_keys() {
    let mut db = TempDb::new();
    run(&mut db, "CREATE TABLE t(a i16, b string NULL, c byte[]); INSERT INTO t VALUES (-2, 'hi', 'x');");
    // the number of the row, then a, the flag and the text of b with its
    // zero byte, the bytes of c, and then the lengths of b and c
    assert_eq!(
        db.tables[0].rowid_index,
        vec![vec![
            0, 0, 0, 0, 0, 0, 0, 1,
            0x7F, 0xFE,
            0, b'h', b'i', 0,
            b'x', 0,
            0, 0, 0, 0, 0, 0, 0, 3,
            0, 0, 0, 0, 0, 0, 0, 2,
        ]]
    );
    assert_eq!(
        rows(&mut db, "SELECT a, b, c FROM t"),
        vec![vec![sint(-2), text("hi"), Variant::Bytes(vec![b'x', 0])]]
    );
}

#[test]
fn test_explain() {
    let mut db = TempDb::new();
    run(&mut db, "CREATE TABLE t(a int, b string);");
    match db.execute_statement(parse_statement("EXPLAIN SELECT a, 'x' FROM t WHERE a = 1").unwrap(), &Host).unwrap() {
        ExecuteStatementResponse::Explain(plan) => assert_eq!(
            plan,
            "query plan\n\
             column names: (`a`, `_0`)\n\
             (scan `t` :source-id 0\n  \
               (if \n    \
                 (= \n      \
                   (column-field :source-id 0 :column-offset 0)\n      \
                   1)\n    \
                 (yield\n      \
                   (column-field :source-id 0 :column-offset 0)\n      \
                   x)))"
        ),
        _ => panic!(),
    }
}

#[test]
fn test_explain_grouped_plan_has_no_ungrouped_columns() {
    let mut db = TempDb::new();
    run(&mut db, "CREATE TABLE s(k string, v int);");
    match db.execute_statement(parse_statement("EXPLAIN SELECT k, -v, sum(v) FROM s GROUP BY k HAVING count(*) > 1").unwrap(), &Host).unwrap() {
        ExecuteStatementResponse::Explain(plan) => assert_eq!(
            plan,
            "query plan\n\
             column names: (`k`, `_0`, `_1`)\n\
             (temp-group-by :source-id 1\n  \
               (scan `s` :source-id 0\n    \
                 (yield\n      \
                   (column-field :source-id 0 :column-offset 0)\n      \
                   (column-field :source-id 0 :column-offset 1)))\n  \
               (group-by-values\n    \
                 (column-field :source-id 1 :column-offset 0))\n  \
               (if \n    \
                 (> \n      \
                   (count-all :source-id 1)\n      \
                   1)\n    \
                 (yield\n      \
                   (column-field :source-id 1 :column-offset 0)\n      \
                   (negate \n        \
                     (column-field :source-id 1 :column-offset 1))\n      \
                   (sum :source-id 1 \n        \
                     (column-field :source-id 1 :column-offset 1)))))"
        ),
        _ => panic!(),
    }
}

#[test]
fn test_rows_without_aggregates_match_the_combinations() {
    let mut db = TempDb::new();
    run(&mut db, "CREATE TABLE l(x int); INSERT INTO l VALUES (1),(2),(3); CREATE TABLE r(y int); INSERT INTO r VALUES (1),(2);");
    // 3 * 2 combinations, of which those with x > y pass
    assert_eq!(
        rows(&mut db, "SELECT x, y FROM l, r WHERE x > y"),
        vec![vec![sint(2), sint(1)], vec![sint(3), sint(1)], vec![sint(3), sint(2)]]
    );
    assert_eq!(rows(&mut db, "SELECT x FROM l, r").len(), 6);
}
