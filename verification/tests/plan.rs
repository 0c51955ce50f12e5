use std::collections::HashMap;

use llamadb::databaseinfo::{ColumnInfo, TableInfo};
use llamadb::databasestorage::Group;
use llamadb::floatops::{FloatModel, FloatOps};
use llamadb::identifier::Identifier;
use llamadb::queryplan::columnnames::ColumnNames;
use llamadb::queryplan::compiler::{compile_ast_expression, remap_columns_in_sexpression};
use llamadb::queryplan::execute::groupbuckets::{rows_equal, GroupBuckets};
use llamadb::queryplan::planning::Mapping;
use llamadb::queryplan::{
    AggregateOp, BinaryOp, CompileState, ExecuteError, ExecuteQueryPlan, QueryPlanCompileError,
    SExpression, UnaryOp,
};
use llamadb::sqlsyntax::ast::Expression;
use llamadb::tempdb::{Column, Table, TempDb, UpdateError};
use llamadb::types::{DbType, F64NoNaN, Variant};

struct Host;

impl FloatOps for Host {
    // Stands for this host in the contracts of the library; nothing calls it.
    fn model(&self) -> FloatModel {
        unreachable!()
    }

    fn add(&self, a: u64, b: u64) -> u64 {
        (f64::from_bits(a) + f64::from_bits(b)).to_bits()
    }

    fn mul(&self, a: u64, b: u64) -> u64 {
        (f64::from_bits(a) * f64::from_bits(b)).to_bits()
    }

    fn div(&self, a: u64, b: u64) -> u64 {
        (f64::from_bits(a) / f64::from_bits(b)).to_bits()
    }

    fn from_unsigned(&self, value: u64) -> u64 {
        (value as f64).to_bits()
    }

    fn from_signed(&self, value: i64) -> u64 {
        (value as f64).to_bits()
    }

    fn to_unsigned(&self, bits: u64) -> u64 {
        f64::from_bits(bits) as u64
    }

    fn to_signed(&self, bits: u64) -> i64 {
        f64::from_bits(bits) as i64
    }

    fn parse(&self, text: &str) -> Option<u64> {
        match text.parse::<f64>() {
            Ok(v) => Some(v.to_bits()),
            Err(_) => None,
        }
    }

    fn format(&self, bits: u64) -> String {
        format!("{}", f64::from_bits(bits))
    }
}

fn uint(v: u64) -> Variant {
    Variant::UnsignedInteger(v)
}

fn float(v: f64) -> Variant {
    Variant::Float(F64NoNaN::new(v.to_bits()).unwrap())
}

fn value(v: Variant) -> Box<SExpression<'static>> {
    Box::new(SExpression::Value(v))
}

fn field(source_id: u32, column_offset: u32) -> SExpression<'static> {
    SExpression::ColumnField { source_id, column_offset }
}

fn numbers() -> Table {
    let mut table = Table {
        name: Identifier::new("numbers").unwrap(),
        columns: vec![
            Column {
                offset: 0,
                name: Identifier::new("n").unwrap(),
                dbtype: DbType::Integer { signed: false, bytes: 1 },
                nullable: false,
            },
            Column {
                offset: 1,
                name: Identifier::new("kind").unwrap(),
                dbtype: DbType::String,
                nullable: true,
            },
        ],
        next_rowid: 1,
        rowid_index: Vec::new(),
    };
    table.insert_row(vec![(vec![1], None), (vec![b'a', 0], Some(false))]).ok().unwrap();
    table.insert_row(vec![(vec![2], None), (vec![], Some(true))]).ok().unwrap();
    table.insert_row(vec![(vec![3], None), (vec![b'a', 0], Some(false))]).ok().unwrap();
    table
}

#[test]
fn test_table_scan() {
    let table = numbers();
    assert_eq!(table.next_rowid, 4);
    assert_eq!(
        table.scan(),
        Ok(vec![
            vec![uint(1), Variant::StringLiteral("a".to_string())],
            vec![uint(2), Variant::Null],
            vec![uint(3), Variant::StringLiteral("a".to_string())],
        ])
    );
    // keys come in the order of their bytes
    assert!(table.rowid_index[0] < table.rowid_index[1]);
    assert!(table.rowid_index[1] < table.rowid_index[2]);
}

#[test]
fn test_table_info() {
    let table = numbers();
    assert_eq!(table.get_name().as_slice(), "numbers");
    assert_eq!(table.get_column_count(), 2);
    assert_eq!(table.find_column_by_offset(1).unwrap().get_name().as_slice(), "kind");
    assert!(table.find_column_by_offset(2).is_none());
    let found = table.find_column_by_name(&Identifier::new("KIND").unwrap()).unwrap();
    assert_eq!(found.get_offset(), 1);
    assert_eq!(*found.get_dbtype(), DbType::String);
    assert!(table.find_column_by_name(&Identifier::new("other").unwrap()).is_none());
    let names: Vec<String> = table.get_column_names().iter().map(|n| n.to_string()).collect();
    assert_eq!(names, vec!["n".to_string(), "kind".to_string()]);
    assert_eq!(table.get_columns().len(), 2);
}

#[test]
fn test_insert_row_validation() {
    let mut table = numbers();
    let before = table.rowid_index.clone();
    match table.insert_row(vec![(vec![1, 2], None), (vec![], Some(true))]) {
        Err(UpdateError::ValidationError { column_name }) => assert_eq!(column_name.as_slice(), "n"),
        Ok(_) => panic!(),
    }
    assert_eq!(table.rowid_index, before);
    assert_eq!(table.next_rowid, 4);
    let e = UpdateError::ValidationError { column_name: Identifier::new("n").unwrap() };
    assert_eq!(e.to_string(), "Problem validating column: n");
}

#[test]
fn test_scan_of_a_key_that_holds_no_row() {
    let mut table = numbers();
    table.rowid_index.push(vec![0, 0, 0, 0, 0, 0, 0, 9, 1]);
    assert_eq!(table.scan(), Err(()));
    let plan = SExpression::Scan {
        table: &table,
        source_id: 0,
        yield_fn: Box::new(SExpression::Yield { fields: vec![field(0, 0)] }),
    };
    assert_eq!(ExecuteQueryPlan::new(&Host).execute_query_plan(&plan), Err(ExecuteError::StorageError));
}

#[test]
fn test_execute_plan() {
    let table = numbers();
    // the numbers of the rows whose kind is 'a', doubled
    let plan = SExpression::Scan {
        table: &table,
        source_id: 7,
        yield_fn: Box::new(SExpression::If {
            predicate: Box::new(SExpression::BinaryOp {
                op: BinaryOp::Equal,
                lhs: Box::new(field(7, 1)),
                rhs: value(Variant::StringLiteral("a".to_string())),
            }),
            yield_fn: Box::new(SExpression::Yield {
                fields: vec![SExpression::BinaryOp {
                    op: BinaryOp::Multiply,
                    lhs: Box::new(field(7, 0)),
                    rhs: value(uint(2)),
                }],
            }),
        }),
    };
    let execute = ExecuteQueryPlan::new(&Host);
    assert_eq!(execute.execute_query_plan(&plan), Ok(vec![vec![uint(2)], vec![uint(6)]]));
    // a plan of rows stands for no value, and a value yields no rows
    assert_eq!(execute.execute_expression(&plan), Err(ExecuteError::ExecutionTypeMismatch));
    assert_eq!(
        execute.execute_query_plan(&SExpression::Value(uint(1))),
        Err(ExecuteError::ExecutionTypeMismatch)
    );
    // a source that is not bound, and a column that a row does not have
    assert_eq!(execute.execute_expression(&field(1, 0)), Err(ExecuteError::ExecutionTypeMismatch));
    let wide = SExpression::Scan {
        table: &table,
        source_id: 0,
        yield_fn: Box::new(SExpression::Yield { fields: vec![field(0, 2)] }),
    };
    assert_eq!(execute.execute_query_plan(&wide), Err(ExecuteError::ExecutionTypeMismatch));
    // the operators on bits are not defined
    let bits = SExpression::BinaryOp { op: BinaryOp::BitAnd, lhs: value(uint(1)), rhs: value(uint(1)) };
    assert_eq!(execute.execute_expression(&bits), Err(ExecuteError::ExecutionTypeMismatch));
    let negated = SExpression::UnaryOp { op: UnaryOp::Negate, expr: value(uint(5)) };
    assert_eq!(execute.execute_expression(&negated), Ok(Variant::SignedInteger(-5)));
}

#[test]
fn test_execute_grouping() {
    let table = numbers();
    let every = SExpression::Scan {
        table: &table,
        source_id: 0,
        yield_fn: Box::new(SExpression::Yield { fields: vec![field(0, 0), field(0, 1)] }),
    };
    let plan = SExpression::TempGroupBy {
        source_id: 1,
        yield_in_fn: Box::new(every),
        group_by_values: vec![field(1, 1)],
        yield_out_fn: Box::new(SExpression::Yield {
            fields: vec![
                field(1, 1),
                SExpression::CountAll { source_id: 1 },
                SExpression::AggregateOp { op: AggregateOp::Sum, source_id: 1, value: Box::new(field(1, 0)) },
                SExpression::AggregateOp { op: AggregateOp::Avg, source_id: 1, value: Box::new(field(1, 0)) },
                SExpression::AggregateOp { op: AggregateOp::Min, source_id: 1, value: Box::new(field(1, 0)) },
                SExpression::AggregateOp { op: AggregateOp::Max, source_id: 1, value: Box::new(field(1, 0)) },
                SExpression::AggregateOp { op: AggregateOp::Count, source_id: 1, value: Box::new(field(1, 1)) },
            ],
        }),
    };
    let execute = ExecuteQueryPlan::new(&Host);
    assert_eq!(
        execute.execute_query_plan(&plan),
        Ok(vec![
            vec![Variant::StringLiteral("a".to_string()), uint(2), float(4.0), float(2.0), uint(1), uint(3), uint(2)],
            vec![Variant::Null, uint(1), float(2.0), float(2.0), uint(2), uint(2), uint(0)],
        ])
    );
    // the sum of what is no number
    let texts = SExpression::TempGroupBy {
        source_id: 1,
        yield_in_fn: Box::new(SExpression::Scan {
            table: &table,
            source_id: 0,
            yield_fn: Box::new(SExpression::Yield { fields: vec![field(0, 1)] }),
        }),
        group_by_values: vec![],
        yield_out_fn: Box::new(SExpression::Yield {
            fields: vec![SExpression::AggregateOp {
                op: AggregateOp::Sum,
                source_id: 1,
                value: Box::new(field(1, 0)),
            }],
        }),
    };
    assert_eq!(execute.execute_query_plan(&texts), Err(ExecuteError::ExecutionTypeMismatch));
    // a count outside of a group
    assert_eq!(
        execute.execute_expression(&SExpression::CountAll { source_id: 1 }),
        Err(ExecuteError::ExecutionTypeMismatch)
    );
}

#[test]
fn test_group_buckets() {
    let mut buckets = GroupBuckets::new();
    buckets.insert(vec![uint(1), Variant::Null], vec![uint(10)]);
    buckets.insert(vec![uint(2), Variant::Null], vec![uint(20)]);
    buckets.insert(vec![uint(1), Variant::Null], vec![uint(30)]);
    buckets.insert(vec![float(0.0)], vec![uint(40)]);
    // a double is told from a double with other bits
    buckets.insert(vec![float(-0.0)], vec![uint(50)]);
    let groups = buckets.into_buckets();
    assert_eq!(groups.len(), 4);
    assert_eq!(groups[0].rows, vec![vec![uint(10)], vec![uint(30)]]);
    assert_eq!(groups[1].rows, vec![vec![uint(20)]]);
    assert_eq!(groups[0].count(), 2);
    assert_eq!(groups[0].get_any_row(), Some(&vec![uint(10)]));
    assert_eq!(groups[0].iter().len(), 2);
    assert!(rows_equal(&vec![Variant::Null], &vec![Variant::Null]));
    assert!(!rows_equal(&vec![Variant::Null], &vec![uint(0)]));
    assert!(!rows_equal(&vec![Variant::Null], &vec![]));

    let mut buckets = GroupBuckets::new();
    buckets.insert(vec![uint(1)], vec![uint(10)]);
    buckets.insert(vec![uint(2)], vec![uint(20)]);
    let mut handed = buckets.into_iter();
    assert_eq!(handed.next().unwrap().rows, vec![vec![uint(10)]]);
    assert_eq!(handed.next().unwrap().rows, vec![vec![uint(20)]]);
    assert!(handed.next().is_none());
}

#[test]
fn test_column_names() {
    let names = ColumnNames::new(vec![
        Identifier::new("a").unwrap(),
        Identifier::new("b").unwrap(),
        Identifier::new("A").unwrap(),
    ]);
    assert_eq!(names.get_column_offsets(&Identifier::new("a").unwrap()), vec![0, 2]);
    assert_eq!(names.get_column_offsets(&Identifier::new("b").unwrap()), vec![1]);
    assert_eq!(names.get_column_offsets(&Identifier::new("c").unwrap()), Vec::<u32>::new());
    assert_eq!(names.len(), 3);
}

#[test]
fn test_remap_rewires_every_column_of_a_mapped_source() {
    let plan = SExpression::Yield {
        fields: vec![
            field(0, 1),
            SExpression::UnaryOp { op: UnaryOp::Negate, expr: Box::new(field(1, 0)) },
            field(5, 3),
        ],
    };
    let mut mapping: HashMap<u32, Mapping> = HashMap::new();
    mapping.insert(0, Mapping { source_id: 9, column_offset: 0 });
    mapping.insert(1, Mapping { source_id: 9, column_offset: 2 });
    match remap_columns_in_sexpression(&plan, &mapping) {
        SExpression::Yield { fields } => {
            assert!(matches!(fields[0], SExpression::ColumnField { source_id: 9, column_offset: 1 }));
            match &fields[1] {
                SExpression::UnaryOp { expr, .. } => {
                    assert!(matches!(**expr, SExpression::ColumnField { source_id: 9, column_offset: 2 }))
                }
                _ => panic!(),
            }
            assert!(matches!(fields[2], SExpression::ColumnField { source_id: 5, column_offset: 3 }));
        }
        _ => panic!(),
    }
}

#[test]
fn test_compile_expression_literals() {
    let db = TempDb::new();
    match compile_ast_expression(&db, Expression::Number("12".to_string()), &Host) {
        Ok(SExpression::Value(v)) => assert_eq!(v, uint(12)),
        _ => panic!(),
    }
    match compile_ast_expression(&db, Expression::Number("twelve".to_string()), &Host) {
        Err(e) => {
            assert!(matches!(e, QueryPlanCompileError::BadNumberLiteral(_)));
            assert_eq!(e.to_string(), "bad number literal: twelve");
        }
        Ok(_) => panic!(),
    }
    match compile_ast_expression(&db, Expression::Null, &Host) {
        Ok(SExpression::Value(v)) => assert_eq!(v, Variant::Null),
        _ => panic!(),
    }
    assert_eq!(QueryPlanCompileError::TooManySources.to_string(), "too many sources");
    assert_eq!(
        QueryPlanCompileError::BadStringLiteral("x".to_string()).to_string(),
        "bad string literal: x"
    );
    assert_eq!(BinaryOp::Concatenate.sigil(), "concat");
    assert_eq!(BinaryOp::NotEqual.sigil(), "<>");
    assert_eq!(UnaryOp::Negate.name(), "negate");
    assert_eq!(AggregateOp::Avg.name(), "avg");
}

#[test]
fn test_compile_state_hands_out_ids() {
    let mut state = CompileState::new();
    assert_eq!(state.aggregated_source_id(0), None);
    assert_eq!(state.new_source_id(0).ok(), Some(0));
    assert_eq!(state.new_query_id().ok(), Some(1));
    assert_eq!(state.new_source_id(1).ok(), Some(1));
    assert_eq!(state.get_query_id_from_source_id(0), 0);
    assert_eq!(state.get_query_id_from_source_id(1), 1);
    // a query has one source for its groups, however often it is asked for
    assert_eq!(state.new_aggregated_source_id(1).ok(), Some(2));
    assert_eq!(state.new_aggregated_source_id(1).ok(), Some(2));
    assert_eq!(state.aggregated_source_id(1), Some(2));
    assert_eq!(state.aggregated_source_id(0), None);
    assert_eq!(state.get_query_id_from_source_id(2), 1);
    assert_eq!(state.new_source_id(0).ok(), Some(3));
    // a source that was never handed out belongs to the statement itself
    assert_eq!(state.get_query_id_from_source_id(40), 0);
}
