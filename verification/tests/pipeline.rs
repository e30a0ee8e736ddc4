use select_engine::data::{Row, Value};
use select_engine::error::SelectError;
use select_engine::select::{fetch_select_params, select};
use select_engine::statement::{
    Column, CompareOp, Expression, FieldDefinition, JoinClause, JoinConstraint, JoinOperator,
    JoinRightSide, LimitClause, SelectStatement, Table,
};
use select_engine::storage::MemoryStore;

fn column(name: &str) -> Column {
    Column { name: name.to_string(), table: None }
}

fn qualified(table: &str, name: &str) -> Column {
    Column { name: name.to_string(), table: Some(table.to_string()) }
}

fn table(name: &str) -> Table {
    Table { name: name.to_string(), alias: None }
}

fn integer(i: i64) -> Value {
    Value::Integer(i)
}

fn text(s: &str) -> Value {
    Value::Text(s.to_string())
}

fn equal(left: Column, right: Column) -> Expression {
    Expression::Compare(
        CompareOp::Equal,
        Box::new(Expression::Column(left)),
        Box::new(Expression::Column(right)),
    )
}

fn compare_literal(op: CompareOp, left: Column, right: Value) -> Expression {
    Expression::Compare(
        op,
        Box::new(Expression::Column(left)),
        Box::new(Expression::Literal(right)),
    )
}

fn join_on(operator: JoinOperator, right: &str, on: Expression) -> JoinClause {
    JoinClause {
        operator,
        right: JoinRightSide::Table(table(right)),
        constraint: JoinConstraint::On(on),
    }
}

fn statement(from: &str, fields: Vec<FieldDefinition>) -> SelectStatement {
    SelectStatement {
        tables: vec![table(from)],
        fields,
        join: Vec::new(),
        where_clause: None,
        limit: None,
    }
}

/// `t1(id, name)` with rows (1, "a"), (2, "b"); `t2(id, amount)` with rows
/// (1, 10), (3, 30).
fn two_tables() -> MemoryStore<u64> {
    let mut store = MemoryStore::new();
    assert!(store.create_table("t1".to_string(), vec![column("id"), column("name")]));
    assert!(store.create_table("t2".to_string(), vec![column("id"), column("amount")]));
    assert!(store.insert(&"t1".to_string(), 100, Row(vec![integer(1), text("a")])));
    assert!(store.insert(&"t1".to_string(), 101, Row(vec![integer(2), text("b")])));
    assert!(store.insert(&"t2".to_string(), 200, Row(vec![integer(1), integer(10)])));
    assert!(store.insert(&"t2".to_string(), 201, Row(vec![integer(3), integer(30)])));
    store
}

/// `numbers(n)` with the rows 0, 1, ..., count - 1.
fn numbers(count: i64) -> MemoryStore<u64> {
    let mut store = MemoryStore::new();
    assert!(store.create_table("numbers".to_string(), vec![column("n")]));
    for i in 0..count {
        assert!(store.insert(&"numbers".to_string(), i as u64, Row(vec![integer(i)])));
    }
    store
}

fn run(store: &MemoryStore<u64>, statement: &SelectStatement) -> Result<Vec<Row>, SelectError> {
    let params = fetch_select_params(store, statement)?;
    select(store, statement, &params, None)
}

#[test]
fn plain_scan_returns_every_row_in_scan_order() {
    let store = two_tables();
    let stmt = statement("t1", vec![FieldDefinition::All]);
    let rows = run(&store, &stmt).unwrap();
    assert_eq!(rows, vec![Row(vec![integer(1), text("a")]), Row(vec![integer(2), text("b")])]);
}

#[test]
fn plain_scan_of_empty_table_is_empty() {
    let mut store: MemoryStore<u64> = MemoryStore::new();
    assert!(store.create_table("empty".to_string(), vec![column("x")]));
    let stmt = statement("empty", vec![FieldDefinition::All]);
    assert_eq!(run(&store, &stmt).unwrap(), Vec::<Row>::new());
}

#[test]
fn inner_join_example() {
    let store = two_tables();
    let mut stmt = statement("t1", vec![FieldDefinition::All]);
    stmt.join.push(join_on(
        JoinOperator::InnerJoin,
        "t2",
        equal(qualified("t1", "id"), qualified("t2", "id")),
    ));
    let rows = run(&store, &stmt).unwrap();
    assert_eq!(rows, vec![Row(vec![integer(1), text("a"), integer(1), integer(10)])]);
}

#[test]
fn plain_join_keyword_behaves_as_inner_join() {
    let store = two_tables();
    let mut stmt = statement("t1", vec![FieldDefinition::All]);
    stmt.join.push(join_on(
        JoinOperator::Join,
        "t2",
        equal(qualified("t1", "id"), qualified("t2", "id")),
    ));
    let rows = run(&store, &stmt).unwrap();
    assert_eq!(rows, vec![Row(vec![integer(1), text("a"), integer(1), integer(10)])]);
}

#[test]
fn inner_join_takes_only_the_first_of_several_matches() {
    let mut store = two_tables();
    assert!(store.insert(&"t2".to_string(), 202, Row(vec![integer(1), integer(11)])));
    assert!(store.insert(&"t2".to_string(), 203, Row(vec![integer(1), integer(12)])));
    let mut stmt = statement("t1", vec![FieldDefinition::All]);
    stmt.join.push(join_on(
        JoinOperator::InnerJoin,
        "t2",
        equal(qualified("t1", "id"), qualified("t2", "id")),
    ));
    let rows = run(&store, &stmt).unwrap();
    assert_eq!(rows, vec![Row(vec![integer(1), text("a"), integer(1), integer(10)])]);
}

#[test]
fn left_join_keeps_unmatched_row_without_joined_columns() {
    let store = two_tables();
    let mut stmt = statement("t1", vec![FieldDefinition::All]);
    stmt.join.push(join_on(
        JoinOperator::LeftOuterJoin,
        "t2",
        equal(qualified("t1", "id"), qualified("t2", "id")),
    ));
    let rows = run(&store, &stmt).unwrap();
    assert_eq!(
        rows,
        vec![Row(vec![integer(1), text("a"), integer(1), integer(10)]), Row(vec![integer(2), text("b")])]
    );
}

#[test]
fn left_join_keyword_without_outer_behaves_the_same() {
    let store = two_tables();
    let mut stmt = statement("t1", vec![FieldDefinition::Col(qualified("t1", "name"))]);
    stmt.join.push(join_on(
        JoinOperator::LeftJoin,
        "t2",
        equal(qualified("t1", "id"), qualified("t2", "id")),
    ));
    let rows = run(&store, &stmt).unwrap();
    assert_eq!(rows, vec![Row(vec![text("a")]), Row(vec![text("b")])]);
}

#[test]
fn column_of_unmatched_left_join_is_not_found() {
    let store = two_tables();
    let mut stmt = statement("t1", vec![FieldDefinition::Col(qualified("t2", "amount"))]);
    stmt.join.push(join_on(
        JoinOperator::LeftJoin,
        "t2",
        equal(qualified("t1", "id"), qualified("t2", "id")),
    ));
    assert_eq!(run(&store, &stmt), Err(SelectError::ColumnNotFound));
}

#[test]
fn where_sees_joined_row() {
    let store = two_tables();
    let mut stmt = statement("t1", vec![FieldDefinition::Col(column("name"))]);
    stmt.join.push(join_on(
        JoinOperator::InnerJoin,
        "t2",
        equal(qualified("t1", "id"), qualified("t2", "id")),
    ));
    stmt.where_clause = Some(compare_literal(CompareOp::Equal, qualified("t2", "amount"), integer(10)));
    assert_eq!(run(&store, &stmt).unwrap(), vec![Row(vec![text("a")])]);
    stmt.where_clause = Some(compare_literal(CompareOp::Equal, qualified("t2", "amount"), integer(11)));
    assert_eq!(run(&store, &stmt).unwrap(), Vec::<Row>::new());
}

#[test]
fn where_on_joined_column_rejects_unmatched_left_join_row() {
    let store = two_tables();
    let mut stmt = statement("t1", vec![FieldDefinition::Col(column("name"))]);
    stmt.join.push(join_on(
        JoinOperator::LeftJoin,
        "t2",
        equal(qualified("t1", "id"), qualified("t2", "id")),
    ));
    stmt.where_clause = Some(compare_literal(CompareOp::Equal, qualified("t2", "amount"), integer(10)));
    assert_eq!(run(&store, &stmt), Ok(vec![Row(vec![text("a")])]));
}

#[test]
fn left_join_with_where_on_joined_column_keeps_matched_rows() {
    let mut store: MemoryStore<u64> = MemoryStore::new();
    assert!(store.create_table("t1".to_string(), vec![column("id"), column("name")]));
    assert!(store.create_table("t2".to_string(), vec![column("id"), column("val")]));
    assert!(store.insert(&"t1".to_string(), 1, Row(vec![integer(1), text("a")])));
    assert!(store.insert(&"t1".to_string(), 2, Row(vec![integer(2), text("b")])));
    assert!(store.insert(&"t2".to_string(), 1, Row(vec![integer(1), integer(10)])));
    let mut stmt = statement("t1", vec![FieldDefinition::Col(qualified("t2", "val"))]);
    stmt.join.push(join_on(
        JoinOperator::LeftJoin,
        "t2",
        equal(qualified("t1", "id"), qualified("t2", "id")),
    ));
    stmt.where_clause = Some(compare_literal(CompareOp::Equal, qualified("t2", "val"), integer(10)));
    assert_eq!(run(&store, &stmt), Ok(vec![Row(vec![integer(10)])]));
}

#[test]
fn unqualified_column_of_unmatched_left_join_is_null_in_where() {
    let store = two_tables();
    let mut stmt = statement("t1", vec![FieldDefinition::Col(column("name"))]);
    stmt.join.push(join_on(
        JoinOperator::LeftJoin,
        "t2",
        equal(qualified("t1", "id"), qualified("t2", "id")),
    ));
    stmt.where_clause = Some(compare_literal(CompareOp::Less, column("amount"), integer(100)));
    assert_eq!(run(&store, &stmt), Ok(vec![Row(vec![text("a")])]));
    stmt.where_clause = Some(Expression::Not(Box::new(compare_literal(
        CompareOp::Equal,
        column("amount"),
        integer(10),
    ))));
    assert_eq!(run(&store, &stmt), Ok(vec![Row(vec![text("b")])]));
}

#[test]
fn column_that_no_joined_table_declares_is_not_found_in_where() {
    let store = two_tables();
    let mut stmt = statement("t1", vec![FieldDefinition::Col(column("name"))]);
    stmt.join.push(join_on(
        JoinOperator::LeftJoin,
        "t2",
        equal(qualified("t1", "id"), qualified("t2", "id")),
    ));
    stmt.where_clause = Some(compare_literal(CompareOp::Equal, qualified("t2", "nothing"), integer(1)));
    assert_eq!(run(&store, &stmt), Err(SelectError::ColumnNotFound));
    stmt.where_clause = Some(compare_literal(CompareOp::Equal, qualified("t9", "amount"), integer(1)));
    assert_eq!(run(&store, &stmt), Err(SelectError::ColumnNotFound));
}

#[test]
fn later_join_sees_unmatched_left_join_table_as_null() {
    let mut store = two_tables();
    assert!(store.create_table("t3".to_string(), vec![column("amount"), column("label")]));
    assert!(store.insert(&"t3".to_string(), 300, Row(vec![integer(10), text("ten")])));
    let mut stmt = statement("t1", vec![FieldDefinition::All]);
    stmt.join.push(join_on(
        JoinOperator::LeftJoin,
        "t2",
        equal(qualified("t1", "id"), qualified("t2", "id")),
    ));
    stmt.join.push(join_on(
        JoinOperator::LeftJoin,
        "t3",
        equal(qualified("t2", "amount"), qualified("t3", "amount")),
    ));
    assert_eq!(
        run(&store, &stmt),
        Ok(vec![
            Row(vec![integer(1), text("a"), integer(1), integer(10), integer(10), text("ten")]),
            Row(vec![integer(2), text("b")]),
        ])
    );
    stmt.join[1].operator = JoinOperator::InnerJoin;
    assert_eq!(
        run(&store, &stmt),
        Ok(vec![Row(vec![integer(1), text("a"), integer(1), integer(10), integer(10), text("ten")])])
    );
}

#[test]
fn computed_field_on_unmatched_left_join_column_is_not_found() {
    let store = two_tables();
    let mut stmt = statement(
        "t1",
        vec![FieldDefinition::Value(Expression::Column(qualified("t2", "amount")))],
    );
    stmt.join.push(join_on(
        JoinOperator::LeftJoin,
        "t2",
        equal(qualified("t1", "id"), qualified("t2", "id")),
    ));
    assert_eq!(run(&store, &stmt), Err(SelectError::ColumnNotFound));
}

#[test]
fn known_but_unreadable_table_is_storage_unavailable() {
    let mut store = two_tables();
    store.tables[1].readable = false;
    let mut stmt = statement("t1", vec![FieldDefinition::All]);
    stmt.join.push(join_on(
        JoinOperator::LeftJoin,
        "t2",
        equal(qualified("t1", "id"), qualified("t2", "id")),
    ));
    let params = fetch_select_params(&store, &stmt).unwrap();
    assert_eq!(params.join_columns[0].1.len(), 2);
    assert_eq!(select(&store, &stmt, &params, None), Err(SelectError::StorageUnavailable));
    store.tables[1].readable = true;
    store.tables[0].readable = false;
    let params = fetch_select_params(&store, &stmt).unwrap();
    assert_eq!(select(&store, &stmt, &params, None), Err(SelectError::StorageUnavailable));
}

#[test]
fn where_filters_driving_rows() {
    let store = numbers(6);
    let mut stmt = statement("numbers", vec![FieldDefinition::All]);
    stmt.where_clause = Some(Expression::And(
        Box::new(compare_literal(CompareOp::GreaterOrEqual, column("n"), integer(2))),
        Box::new(Expression::Not(Box::new(compare_literal(
            CompareOp::Equal,
            column("n"),
            integer(4),
        )))),
    ));
    let rows = run(&store, &stmt).unwrap();
    assert_eq!(rows, vec![Row(vec![integer(2)]), Row(vec![integer(3)]), Row(vec![integer(5)])]);
}

#[test]
fn limit_two_offset_one_over_five_admitted_rows() {
    let store = numbers(5);
    let mut stmt = statement("numbers", vec![FieldDefinition::All]);
    stmt.limit = Some(LimitClause { limit: Some(2), offset: Some(1) });
    let rows = run(&store, &stmt).unwrap();
    assert_eq!(rows, vec![Row(vec![integer(1)]), Row(vec![integer(2)])]);
}

#[test]
fn limit_counts_admitted_rows_not_scanned_rows() {
    let store = numbers(10);
    let mut stmt = statement("numbers", vec![FieldDefinition::All]);
    stmt.where_clause = Some(compare_literal(CompareOp::Greater, column("n"), integer(3)));
    stmt.limit = Some(LimitClause { limit: Some(2), offset: Some(1) });
    let rows = run(&store, &stmt).unwrap();
    assert_eq!(rows, vec![Row(vec![integer(5)]), Row(vec![integer(6)])]);
}

#[test]
fn offset_without_limit_and_limit_without_offset() {
    let store = numbers(4);
    let mut stmt = statement("numbers", vec![FieldDefinition::All]);
    stmt.limit = Some(LimitClause { limit: None, offset: Some(2) });
    assert_eq!(run(&store, &stmt).unwrap(), vec![Row(vec![integer(2)]), Row(vec![integer(3)])]);
    stmt.limit = Some(LimitClause { limit: Some(1), offset: None });
    assert_eq!(run(&store, &stmt).unwrap(), vec![Row(vec![integer(0)])]);
    stmt.limit = Some(LimitClause { limit: Some(0), offset: None });
    assert_eq!(run(&store, &stmt).unwrap(), Vec::<Row>::new());
    stmt.limit = Some(LimitClause { limit: None, offset: None });
    assert_eq!(run(&store, &stmt).unwrap().len(), 4);
}

#[test]
fn projection_outside_the_window_is_not_evaluated() {
    let store = numbers(3);
    let mut stmt = statement("numbers", vec![FieldDefinition::Col(column("missing"))]);
    stmt.limit = Some(LimitClause { limit: Some(0), offset: None });
    assert_eq!(run(&store, &stmt).unwrap(), Vec::<Row>::new());
    stmt.limit = None;
    assert_eq!(run(&store, &stmt), Err(SelectError::ColumnNotFound));
}

#[test]
fn wildcard_is_driving_table_then_joined_table() {
    let store = two_tables();
    let mut stmt = statement(
        "t1",
        vec![
            FieldDefinition::AllInTable("t2".to_string()),
            FieldDefinition::AllInTable("t1".to_string()),
            FieldDefinition::All,
        ],
    );
    stmt.join.push(join_on(
        JoinOperator::InnerJoin,
        "t2",
        equal(qualified("t1", "id"), qualified("t2", "id")),
    ));
    let rows = run(&store, &stmt).unwrap();
    assert_eq!(
        rows,
        vec![Row(vec![
            integer(1),
            integer(10),
            integer(1),
            text("a"),
            integer(1),
            text("a"),
            integer(1),
            integer(10)
        ])]
    );
}

#[test]
fn qualified_and_ambiguous_references() {
    let mut store: MemoryStore<u64> = MemoryStore::new();
    assert!(store.create_table("a".to_string(), vec![column("k"), column("v")]));
    assert!(store.create_table("b".to_string(), vec![column("k"), column("v")]));
    assert!(store.insert(&"a".to_string(), 1, Row(vec![integer(7), text("from a")])));
    assert!(store.insert(&"b".to_string(), 2, Row(vec![integer(7), text("from b")])));
    let mut stmt = statement(
        "a",
        vec![
            FieldDefinition::Col(qualified("a", "v")),
            FieldDefinition::Col(qualified("b", "v")),
            FieldDefinition::Col(column("v")),
        ],
    );
    stmt.join.push(join_on(JoinOperator::InnerJoin, "b", equal(qualified("a", "k"), qualified("b", "k"))));
    let rows = run(&store, &stmt).unwrap();
    assert_eq!(rows, vec![Row(vec![text("from a"), text("from b"), text("from b")])]);
}

#[test]
fn alias_qualifies_a_reference() {
    let store = two_tables();
    let mut stmt = statement("t1", vec![FieldDefinition::Col(qualified("x", "name"))]);
    stmt.tables[0].alias = Some("x".to_string());
    stmt.where_clause = Some(compare_literal(CompareOp::Equal, qualified("t1", "id"), integer(2)));
    assert_eq!(run(&store, &stmt).unwrap(), vec![Row(vec![text("b")])]);
}

#[test]
fn wildcard_round_trip_by_qualified_name() {
    let store = two_tables();
    let join = || {
        join_on(
            JoinOperator::InnerJoin,
            "t2",
            equal(qualified("t1", "id"), qualified("t2", "id")),
        )
    };
    let mut all = statement("t1", vec![FieldDefinition::All]);
    all.join.push(join());
    let mut named = statement(
        "t1",
        vec![
            FieldDefinition::Col(qualified("t1", "id")),
            FieldDefinition::Col(qualified("t1", "name")),
            FieldDefinition::Col(qualified("t2", "id")),
            FieldDefinition::Col(qualified("t2", "amount")),
        ],
    );
    named.join.push(join());
    let by_wildcard = run(&store, &all).unwrap();
    assert_eq!(by_wildcard.len(), 1);
    assert_eq!(by_wildcard, run(&store, &named).unwrap());
}

#[test]
fn joins_apply_in_clause_order() {
    let mut store = two_tables();
    assert!(store.create_table("t3".to_string(), vec![column("amount"), column("label")]));
    assert!(store.insert(&"t3".to_string(), 300, Row(vec![integer(10), text("ten")])));
    let mut stmt = statement("t1", vec![FieldDefinition::All]);
    stmt.join.push(join_on(
        JoinOperator::InnerJoin,
        "t2",
        equal(qualified("t1", "id"), qualified("t2", "id")),
    ));
    stmt.join.push(join_on(
        JoinOperator::InnerJoin,
        "t3",
        equal(qualified("t2", "amount"), qualified("t3", "amount")),
    ));
    let rows = run(&store, &stmt).unwrap();
    assert_eq!(rows, vec![Row(vec![integer(1), text("a"), integer(1), integer(10), integer(10), text("ten")])]);
}

#[test]
fn computed_field_is_evaluated_on_the_chain() {
    let store = numbers(3);
    let stmt = statement(
        "numbers",
        vec![
            FieldDefinition::Col(column("n")),
            FieldDefinition::Value(compare_literal(CompareOp::Less, column("n"), integer(1))),
            FieldDefinition::Value(Expression::Literal(text("x"))),
        ],
    );
    let rows = run(&store, &stmt).unwrap();
    assert_eq!(
        rows,
        vec![
            Row(vec![integer(0), Value::Bool(true), text("x")]),
            Row(vec![integer(1), Value::Bool(false), text("x")]),
            Row(vec![integer(2), Value::Bool(false), text("x")]),
        ]
    );
}

#[test]
fn missing_driving_table_is_storage_unavailable() {
    let store = two_tables();
    let stmt = statement("nowhere", vec![FieldDefinition::All]);
    assert!(matches!(
        fetch_select_params(&store, &stmt),
        Err(SelectError::StorageUnavailable)
    ));
}

#[test]
fn missing_joined_table_is_storage_unavailable() {
    let store = two_tables();
    let mut stmt = statement("t1", vec![FieldDefinition::All]);
    stmt.join.push(join_on(
        JoinOperator::InnerJoin,
        "nowhere",
        equal(qualified("t1", "id"), qualified("nowhere", "id")),
    ));
    assert!(matches!(
        fetch_select_params(&store, &stmt),
        Err(SelectError::StorageUnavailable)
    ));
}

#[test]
fn statement_must_name_exactly_one_table() {
    let store = two_tables();
    let mut stmt = statement("t1", vec![FieldDefinition::All]);
    stmt.tables.push(table("t2"));
    assert!(matches!(
        fetch_select_params(&store, &stmt),
        Err(SelectError::UnsupportedStatement)
    ));
    stmt.tables.clear();
    assert!(matches!(
        fetch_select_params(&store, &stmt),
        Err(SelectError::UnsupportedStatement)
    ));
}

#[test]
fn join_target_must_be_a_named_table() {
    let store = two_tables();
    for right in [
        JoinRightSide::Tables(vec![table("t2")]),
        JoinRightSide::NestedSelect,
        JoinRightSide::NestedJoin,
    ] {
        let mut stmt = statement("t1", vec![FieldDefinition::All]);
        stmt.join.push(JoinClause {
            operator: JoinOperator::InnerJoin,
            right,
            constraint: JoinConstraint::On(Expression::Literal(Value::Bool(true))),
        });
        assert!(matches!(
            fetch_select_params(&store, &stmt),
            Err(SelectError::UnsupportedStatement)
        ));
    }
}

#[test]
fn using_constraint_is_unsupported() {
    let store = two_tables();
    let mut stmt = statement("t1", vec![FieldDefinition::All]);
    stmt.join.push(JoinClause {
        operator: JoinOperator::InnerJoin,
        right: JoinRightSide::Table(table("t2")),
        constraint: JoinConstraint::Using(vec![column("id")]),
    });
    assert_eq!(run(&store, &stmt), Err(SelectError::UnsupportedJoinConstraint));
}

#[test]
fn other_join_operator_is_refused_when_no_row_matches() {
    let store = two_tables();
    let mut stmt = statement("t1", vec![FieldDefinition::All]);
    stmt.join.push(join_on(
        JoinOperator::CrossJoin,
        "t2",
        equal(qualified("t1", "id"), qualified("t2", "id")),
    ));
    assert_eq!(run(&store, &stmt), Err(SelectError::UnsupportedJoinOperator));
    stmt.join[0].operator = JoinOperator::StraightJoin;
    assert_eq!(run(&store, &stmt), Err(SelectError::UnsupportedJoinOperator));
}

#[test]
fn unknown_column_in_where_is_column_not_found() {
    let store = two_tables();
    let mut stmt = statement("t1", vec![FieldDefinition::All]);
    stmt.where_clause = Some(compare_literal(CompareOp::Equal, column("missing"), integer(1)));
    assert_eq!(run(&store, &stmt), Err(SelectError::ColumnNotFound));
}

#[test]
fn unknown_table_wildcard_is_column_not_found() {
    let store = two_tables();
    let stmt = statement("t1", vec![FieldDefinition::AllInTable("t9".to_string())]);
    assert_eq!(run(&store, &stmt), Err(SelectError::ColumnNotFound));
}

#[test]
fn non_boolean_predicate_is_type_mismatch() {
    let store = two_tables();
    let mut stmt = statement("t1", vec![FieldDefinition::All]);
    stmt.where_clause = Some(Expression::Column(column("id")));
    assert_eq!(run(&store, &stmt), Err(SelectError::TypeMismatch));
    stmt.where_clause = Some(Expression::Literal(Value::Null));
    assert_eq!(run(&store, &stmt), Err(SelectError::TypeMismatch));
}

#[test]
fn ordering_of_text_is_type_mismatch() {
    let store = two_tables();
    let mut stmt = statement("t1", vec![FieldDefinition::All]);
    stmt.where_clause = Some(compare_literal(CompareOp::Less, column("name"), text("b")));
    assert_eq!(run(&store, &stmt), Err(SelectError::TypeMismatch));
}

#[test]
fn first_failing_row_fails_the_query() {
    let mut store: MemoryStore<u64> = MemoryStore::new();
    assert!(store.create_table("mixed".to_string(), vec![column("x")]));
    assert!(store.insert(&"mixed".to_string(), 1, Row(vec![integer(1)])));
    assert!(store.insert(&"mixed".to_string(), 2, Row(vec![text("two")])));
    let mut stmt = statement("mixed", vec![FieldDefinition::All]);
    stmt.where_clause = Some(compare_literal(CompareOp::Less, column("x"), integer(5)));
    assert_eq!(run(&store, &stmt), Err(SelectError::TypeMismatch));
}

#[test]
fn self_join_resolves_table_name_in_the_innermost_scope() {
    let mut store: MemoryStore<u64> = MemoryStore::new();
    assert!(store.create_table("a".to_string(), vec![column("k"), column("v")]));
    assert!(store.insert(&"a".to_string(), 1, Row(vec![integer(1), text("x")])));
    assert!(store.insert(&"a".to_string(), 2, Row(vec![integer(2), text("y")])));
    let mut stmt = statement(
        "a",
        vec![FieldDefinition::All, FieldDefinition::Col(qualified("a", "v"))],
    );
    stmt.join.push(join_on(
        JoinOperator::InnerJoin,
        "a",
        compare_literal(CompareOp::Equal, qualified("a", "k"), integer(1)),
    ));
    let rows = run(&store, &stmt).unwrap();
    assert_eq!(
        rows,
        vec![
            Row(vec![integer(1), text("x"), integer(1), text("x"), text("x")]),
            Row(vec![integer(2), text("y"), integer(1), text("x"), text("x")]),
        ]
    );
}

#[test]
fn null_never_compares_equal() {
    let mut store: MemoryStore<u64> = MemoryStore::new();
    assert!(store.create_table("n".to_string(), vec![column("x")]));
    assert!(store.insert(&"n".to_string(), 1, Row(vec![Value::Null])));
    assert!(store.insert(&"n".to_string(), 2, Row(vec![integer(1)])));
    let mut stmt = statement("n", vec![FieldDefinition::All]);
    stmt.where_clause = Some(equal(column("x"), column("x")));
    assert_eq!(run(&store, &stmt).unwrap(), vec![Row(vec![integer(1)])]);
    stmt.where_clause = Some(compare_literal(CompareOp::NotEqual, column("x"), integer(7)));
    assert_eq!(run(&store, &stmt).unwrap(), vec![Row(vec![integer(1)])]);
}
