use select_engine::blend::Blend;
use select_engine::context::{find_column, is_table_named, lookup_in_scope, BlendContext, FilterContext};
use select_engine::data::{Row, Value};
use select_engine::error::SelectError;
use select_engine::filter::{
    as_truth, check_expression, compare_values, evaluate_expression, values_equal, BlendedFilter,
    Environment, Filter,
};
use select_engine::join::{join, join_clauses};
use select_engine::limit::Limit;
use select_engine::select::{fetch_blended, fetch_columns, fetch_select_params, select, SelectCursor};
use select_engine::statement::{
    Column, CompareOp, Expression, FieldDefinition, JoinClause, JoinConstraint, JoinOperator,
    JoinRightSide, LimitClause, SelectStatement, Table,
};
use select_engine::storage::{MemoryStore, Store};

fn named(name: &str) -> Column {
    Column { name: name.to_string(), table: None }
}

fn dotted(table: &str, name: &str) -> Column {
    Column { name: name.to_string(), table: Some(table.to_string()) }
}

fn plain_table(name: &str) -> Table {
    Table { name: name.to_string(), alias: None }
}

fn number(i: i64) -> Value {
    Value::Integer(i)
}

fn string(s: &str) -> Value {
    Value::Text(s.to_string())
}

fn columns_equal(left: Column, right: Column) -> Expression {
    Expression::Compare(
        CompareOp::Equal,
        Box::new(Expression::Column(left)),
        Box::new(Expression::Column(right)),
    )
}

/// `orders(id, customer)` with (1, 7), (2, 8), (3, 7); `customers(id, name)`
/// with (7, "ann"), (7, "again"), (9, "zed").
fn shop() -> MemoryStore<u32> {
    let mut store = MemoryStore::new();
    assert!(store.create_table("orders".to_string(), vec![named("id"), named("customer")]));
    assert!(store.create_table("customers".to_string(), vec![named("id"), named("name")]));
    assert!(store.insert(&"orders".to_string(), 10, Row(vec![number(1), number(7)])));
    assert!(store.insert(&"orders".to_string(), 11, Row(vec![number(2), number(8)])));
    assert!(store.insert(&"orders".to_string(), 12, Row(vec![number(3), number(7)])));
    assert!(store.insert(&"customers".to_string(), 20, Row(vec![number(7), string("ann")])));
    assert!(store.insert(&"customers".to_string(), 21, Row(vec![number(7), string("again")])));
    assert!(store.insert(&"customers".to_string(), 22, Row(vec![number(9), string("zed")])));
    store
}

fn customer_join(operator: JoinOperator) -> JoinClause {
    JoinClause {
        operator,
        right: JoinRightSide::Table(plain_table("customers")),
        constraint: JoinConstraint::On(columns_equal(
            dotted("orders", "customer"),
            dotted("customers", "id"),
        )),
    }
}

#[test]
fn limit_gate_window() {
    let limit = Limit::new(&Some(LimitClause { limit: Some(2), offset: Some(1) }));
    assert_eq!(limit.offset, Some(1));
    assert_eq!(limit.count, Some(2));
    let inside: Vec<bool> = (0..5).map(|i| limit.check(i)).collect();
    assert_eq!(inside, vec![false, true, true, false, false]);
}

#[test]
fn limit_gate_without_bounds() {
    let none = Limit::new(&None);
    assert!(none.check(0));
    assert!(none.check(usize::MAX));
    let offset_only = Limit::new(&Some(LimitClause { limit: None, offset: Some(3) }));
    assert!(!offset_only.check(2));
    assert!(offset_only.check(3));
    assert!(offset_only.check(usize::MAX));
    let count_only = Limit::new(&Some(LimitClause { limit: Some(3), offset: None }));
    assert!(count_only.check(0));
    assert!(count_only.check(2));
    assert!(!count_only.check(3));
}

#[test]
fn limit_gate_does_not_overflow() {
    let limit = Limit::new(&Some(LimitClause { limit: Some(u64::MAX), offset: Some(u64::MAX) }));
    assert!(!limit.check(0));
    assert!(limit.check(usize::MAX) == (usize::MAX as u64 == u64::MAX));
}

#[test]
fn comparison_rules() {
    assert_eq!(compare_values(CompareOp::Equal, &number(1), &number(1)), Ok(true));
    assert_eq!(compare_values(CompareOp::Equal, &number(1), &string("1")), Ok(false));
    assert_eq!(compare_values(CompareOp::NotEqual, &number(1), &string("1")), Ok(true));
    assert_eq!(compare_values(CompareOp::NotEqual, &string("a"), &string("a")), Ok(false));
    assert_eq!(compare_values(CompareOp::Equal, &Value::Null, &Value::Null), Ok(false));
    assert_eq!(compare_values(CompareOp::NotEqual, &Value::Null, &number(1)), Ok(false));
    assert_eq!(compare_values(CompareOp::Less, &number(1), &Value::Null), Ok(false));
    assert_eq!(compare_values(CompareOp::Less, &number(1), &number(2)), Ok(true));
    assert_eq!(compare_values(CompareOp::LessOrEqual, &number(2), &number(2)), Ok(true));
    assert_eq!(compare_values(CompareOp::Greater, &number(2), &number(2)), Ok(false));
    assert_eq!(compare_values(CompareOp::GreaterOrEqual, &number(2), &number(2)), Ok(true));
    assert_eq!(
        compare_values(CompareOp::Greater, &Value::Bool(true), &Value::Bool(false)),
        Err(SelectError::TypeMismatch)
    );
    assert_eq!(
        compare_values(CompareOp::Less, &string("a"), &number(1)),
        Err(SelectError::TypeMismatch)
    );
}

#[test]
fn value_equality_and_truth() {
    assert!(values_equal(&Value::Null, &Value::Null));
    assert!(values_equal(&string("x"), &string("x")));
    assert!(!values_equal(&string("x"), &string("y")));
    assert!(!values_equal(&Value::Bool(true), &number(1)));
    assert_eq!(as_truth(&Value::Bool(true)), Ok(true));
    assert_eq!(as_truth(&Value::Bool(false)), Ok(false));
    assert_eq!(as_truth(&number(1)), Err(SelectError::TypeMismatch));
    assert_eq!(as_truth(&Value::Null), Err(SelectError::TypeMismatch));
}

#[test]
fn clones_keep_content() {
    let row = Row(vec![Value::Null, Value::Bool(true), number(-3), string("text")]);
    assert_eq!(row.clone(), row);
    assert_eq!(row.len(), 4);
    assert_eq!(row.get_value(2), Some(&number(-3)));
    assert_eq!(row.get_value(4), None);
    let column = dotted("t", "c");
    let copy = column.clone();
    assert_eq!(copy.name, "c");
    assert_eq!(copy.table, Some("t".to_string()));
}

#[test]
fn scope_lookup_rules() {
    let table = Table { name: "orders".to_string(), alias: Some("o".to_string()) };
    let columns = vec![named("id"), named("id"), named("late")];
    let row = Row(vec![number(1), number(2)]);
    assert!(is_table_named(&table, &"orders".to_string()));
    assert!(is_table_named(&table, &"o".to_string()));
    assert!(!is_table_named(&table, &"x".to_string()));
    assert_eq!(find_column(&columns, &"id".to_string()), Some(0));
    assert_eq!(find_column(&columns, &"late".to_string()), Some(2));
    assert_eq!(find_column(&columns, &"none".to_string()), None);
    assert_eq!(lookup_in_scope(&table, &columns, &row, &named("id")), Some(&number(1)));
    assert_eq!(lookup_in_scope(&table, &columns, &row, &dotted("o", "id")), Some(&number(1)));
    assert_eq!(lookup_in_scope(&table, &columns, &row, &dotted("x", "id")), None);
    assert_eq!(lookup_in_scope(&table, &columns, &row, &named("late")), None);
}

#[test]
fn chain_resolves_innermost_first_then_outward() {
    let outer_table = plain_table("a");
    let outer_columns = vec![named("k"), named("only_a")];
    let inner_table = plain_table("b");
    let inner_columns = vec![named("k")];
    let chain = BlendContext {
        table: &inner_table,
        columns: &inner_columns,
        key: 2u8,
        row: Row(vec![number(20)]),
        next: Some(Box::new(BlendContext {
            table: &outer_table,
            columns: &outer_columns,
            key: 1u8,
            row: Row(vec![number(10), number(11)]),
            next: None,
        })),
    };
    assert_eq!(chain.get_value(&named("k")), Some(&number(20)));
    assert_eq!(chain.get_value(&dotted("a", "k")), Some(&number(10)));
    assert_eq!(chain.get_value(&named("only_a")), Some(&number(11)));
    assert_eq!(chain.get_value(&named("nowhere")), None);
    assert_eq!(chain.get_value(&dotted("c", "k")), None);
}

#[test]
fn environment_order_is_item_chain_outer() {
    let t_item = plain_table("item");
    let t_chain = plain_table("chain");
    let t_outer = plain_table("outer");
    let c_item = vec![named("x")];
    let c_chain = vec![named("x"), named("y")];
    let c_outer = vec![named("x"), named("y"), named("z")];
    let r_item = Row(vec![number(1)]);
    let r_outer = Row(vec![number(3), number(33), number(333)]);
    let chain = BlendContext {
        table: &t_chain,
        columns: &c_chain,
        key: 0u8,
        row: Row(vec![number(2), number(22)]),
        next: None,
    };
    let outer = FilterContext { table: &t_outer, columns: &c_outer, row: &r_outer, next: None };
    let env = Environment {
        item: Some((&t_item, &c_item, &r_item)),
        chain: Some(&chain),
        outer: Some(&outer),
        joined: None,
    };
    assert_eq!(env.get_value(&named("x")), Some(&number(1)));
    assert_eq!(env.get_value(&named("y")), Some(&number(22)));
    assert_eq!(env.get_value(&named("z")), Some(&number(333)));
    assert_eq!(env.get_value(&dotted("outer", "x")), Some(&number(3)));
    assert_eq!(env.get_value(&named("w")), None);
    assert_eq!(outer.get_value(&named("y")), Some(&number(33)));
}

#[test]
fn expression_evaluation() {
    let t = plain_table("t");
    let c = vec![named("n"), named("s")];
    let chain = BlendContext {
        table: &t,
        columns: &c,
        key: 0u8,
        row: Row(vec![number(5), string("five")]),
        next: None,
    };
    let env = Environment { item: None, chain: Some(&chain), outer: None, joined: None };
    let n_is_5 = Expression::Compare(
        CompareOp::Equal,
        Box::new(Expression::Column(named("n"))),
        Box::new(Expression::Literal(number(5))),
    );
    let missing = Expression::Column(named("missing"));
    assert_eq!(evaluate_expression(&Expression::Column(named("s")), &env), Ok(string("five")));
    assert_eq!(evaluate_expression(&n_is_5, &env), Ok(Value::Bool(true)));
    assert_eq!(evaluate_expression(&missing, &env), Err(SelectError::ColumnNotFound));
    let not = Expression::Not(Box::new(Expression::Literal(Value::Bool(true))));
    assert_eq!(check_expression(&not, &env), Ok(false));
    let short_and = Expression::And(
        Box::new(Expression::Literal(Value::Bool(false))),
        Box::new(Expression::Column(named("missing"))),
    );
    assert_eq!(check_expression(&short_and, &env), Ok(false));
    let short_or = Expression::Or(
        Box::new(Expression::Literal(Value::Bool(true))),
        Box::new(Expression::Column(named("missing"))),
    );
    assert_eq!(check_expression(&short_or, &env), Ok(true));
    let long_and = Expression::And(
        Box::new(Expression::Literal(Value::Bool(true))),
        Box::new(Expression::Column(named("missing"))),
    );
    assert_eq!(check_expression(&long_and, &env), Err(SelectError::ColumnNotFound));
    let long_or = Expression::Or(
        Box::new(Expression::Literal(Value::Bool(false))),
        Box::new(Expression::Literal(number(1))),
    );
    assert_eq!(check_expression(&long_or, &env), Err(SelectError::TypeMismatch));
    let not_bool = Expression::Not(Box::new(Expression::Column(named("n"))));
    assert_eq!(check_expression(&not_bool, &env), Err(SelectError::TypeMismatch));
}

#[test]
fn column_of_absent_joined_table_is_null_to_the_evaluator() {
    let t = plain_table("t");
    let c = vec![named("n")];
    let u = Table { name: "u".to_string(), alias: Some("you".to_string()) };
    let joined = vec![(&u, vec![named("m")])];
    let chain = BlendContext { table: &t, columns: &c, key: 0u8, row: Row(vec![number(5)]), next: None };
    let env = Environment { item: None, chain: Some(&chain), outer: None, joined: Some(&joined) };
    assert!(env.can_supply(&dotted("u", "m")));
    assert!(env.can_supply(&dotted("you", "m")));
    assert!(env.can_supply(&named("m")));
    assert!(!env.can_supply(&dotted("u", "n")));
    assert!(!env.can_supply(&dotted("t", "m")));
    assert_eq!(env.column_value(&dotted("u", "m")), Ok(Value::Null));
    assert_eq!(env.column_value(&named("m")), Ok(Value::Null));
    assert_eq!(env.column_value(&named("n")), Ok(number(5)));
    assert_eq!(env.column_value(&dotted("u", "n")), Err(SelectError::ColumnNotFound));
    assert_eq!(env.column_value(&named("z")), Err(SelectError::ColumnNotFound));
    let is_five = Expression::Compare(
        CompareOp::Equal,
        Box::new(Expression::Column(dotted("u", "m"))),
        Box::new(Expression::Literal(number(5))),
    );
    assert_eq!(check_expression(&is_five, &env), Ok(false));
    let bare = Environment { item: None, chain: Some(&chain), outer: None, joined: None };
    assert_eq!(check_expression(&is_five, &bare), Err(SelectError::ColumnNotFound));
}

#[test]
fn filter_without_predicate_admits_everything() {
    let t = plain_table("t");
    let c = vec![named("n")];
    let row = Row(vec![number(1)]);
    let filter = Filter::new(None, None, None);
    assert_eq!(filter.check(&t, &c, &row), Ok(true));
    let chain = BlendContext { table: &t, columns: &c, key: 0u8, row: Row(vec![number(1)]), next: None };
    assert_eq!(BlendedFilter::new(&filter, &chain).check(None), Ok(true));
}

#[test]
fn filter_sees_enclosing_context() {
    let inner = plain_table("inner");
    let inner_columns = vec![named("a")];
    let row = Row(vec![number(4)]);
    let enclosing = plain_table("enclosing");
    let enclosing_columns = vec![named("b")];
    let enclosing_row = Row(vec![number(4)]);
    let context = FilterContext {
        table: &enclosing,
        columns: &enclosing_columns,
        row: &enclosing_row,
        next: None,
    };
    let predicate = columns_equal(named("a"), dotted("enclosing", "b"));
    let correlated = Filter::new(Some(&predicate), Some(&context), None);
    assert_eq!(correlated.check(&inner, &inner_columns, &row), Ok(true));
    let alone = Filter::new(Some(&predicate), None, None);
    assert_eq!(alone.check(&inner, &inner_columns, &row), Err(SelectError::ColumnNotFound));
}

#[test]
fn projector_field_kinds() {
    let a = plain_table("a");
    let b = Table { name: "b".to_string(), alias: Some("bee".to_string()) };
    let a_columns = vec![named("x")];
    let b_columns = vec![named("y"), named("z")];
    let chain = BlendContext {
        table: &b,
        columns: &b_columns,
        key: 1u8,
        row: Row(vec![number(2), number(3)]),
        next: Some(Box::new(BlendContext {
            table: &a,
            columns: &a_columns,
            key: 0u8,
            row: Row(vec![number(1)]),
            next: None,
        })),
    };
    let fields = vec![
        FieldDefinition::All,
        FieldDefinition::AllInTable("bee".to_string()),
        FieldDefinition::Col(dotted("a", "x")),
        FieldDefinition::Value(Expression::Literal(Value::Null)),
    ];
    assert_eq!(
        Blend::new(&fields).apply(&chain),
        Ok(Row(vec![number(1), number(2), number(3), number(2), number(3), number(1), Value::Null]))
    );
    let empty: Vec<FieldDefinition> = Vec::new();
    assert_eq!(Blend::new(&empty).apply(&chain), Ok(Row(Vec::new())));
    let second_fails = vec![
        FieldDefinition::Value(Expression::Compare(
            CompareOp::Less,
            Box::new(Expression::Literal(string("a"))),
            Box::new(Expression::Literal(string("b"))),
        )),
        FieldDefinition::Col(named("nowhere")),
    ];
    assert_eq!(Blend::new(&second_fails).apply(&chain), Err(SelectError::TypeMismatch));
}

#[test]
fn memory_store_contract() {
    let mut store: MemoryStore<u32> = MemoryStore::new();
    assert!(store.create_table("t".to_string(), vec![named("a")]));
    assert!(!store.create_table("t".to_string(), vec![named("b")]));
    assert!(!store.insert(&"u".to_string(), 1, Row(vec![number(1)])));
    assert!(store.insert(&"t".to_string(), 1, Row(vec![number(1)])));
    assert!(store.insert(&"t".to_string(), 2, Row(vec![number(2)])));
    assert_eq!(store.find_table(&"t".to_string()), Some(0));
    assert_eq!(store.find_table(&"u".to_string()), None);
    let columns = store.lookup_columns(&"t".to_string()).unwrap();
    assert_eq!(columns.len(), 1);
    assert_eq!(columns[0].name, "a");
    assert!(matches!(
        store.lookup_columns(&"u".to_string()),
        Err(SelectError::StorageUnavailable)
    ));
    assert!(matches!(store.scan_rows(&"u".to_string()), Err(SelectError::StorageUnavailable)));
    let mut scan = store.scan_rows(&"t".to_string()).unwrap();
    assert_eq!(store.next_row(&mut scan), Some((1, Row(vec![number(1)]))));
    assert_eq!(store.next_row(&mut scan), Some((2, Row(vec![number(2)]))));
    assert_eq!(store.next_row(&mut scan), None);
    assert_eq!(store.next_row(&mut scan), None);
}

#[test]
fn memory_store_takes_only_rows_that_fit_the_schema() {
    let mut store: MemoryStore<u32> = MemoryStore::new();
    assert!(store.create_table("t".to_string(), vec![named("a"), named("b")]));
    assert!(!store.insert(&"t".to_string(), 1, Row(vec![number(1)])));
    assert!(!store.insert(&"t".to_string(), 2, Row(vec![number(1), number(2), number(3)])));
    assert!(store.insert(&"t".to_string(), 3, Row(vec![number(1), number(2)])));
    let mut scan = store.scan_rows(&"t".to_string()).unwrap();
    assert_eq!(store.next_row(&mut scan), Some((3, Row(vec![number(1), number(2)]))));
    assert_eq!(store.next_row(&mut scan), None);
}

#[test]
fn row_source_yields_seed_chains_in_scan_order() {
    let store = shop();
    let orders = plain_table("orders");
    let columns = fetch_columns(&store, &orders).unwrap();
    let mut source = fetch_blended(&store, &orders, &columns).unwrap();
    let first = source.next_context(&store).unwrap();
    assert_eq!(first.key, 10);
    assert_eq!(first.row, Row(vec![number(1), number(7)]));
    assert!(first.next.is_none());
    assert_eq!(first.table.name, "orders");
    assert_eq!(source.next_context(&store).unwrap().key, 11);
    assert_eq!(source.next_context(&store).unwrap().key, 12);
    assert!(source.next_context(&store).is_none());
    let nowhere = plain_table("nowhere");
    assert!(matches!(
        fetch_blended(&store, &nowhere, &columns),
        Err(SelectError::StorageUnavailable)
    ));
    assert!(matches!(fetch_columns(&store, &nowhere), Err(SelectError::StorageUnavailable)));
}

#[test]
fn join_extends_chain_with_first_match() {
    let store = shop();
    let orders = plain_table("orders");
    let customers = plain_table("customers");
    let order_columns = fetch_columns(&store, &orders).unwrap();
    let customer_columns = fetch_columns(&store, &customers).unwrap();
    let no_joined: Vec<(&Table, Vec<Column>)> = Vec::new();
    let clause = customer_join(JoinOperator::InnerJoin);
    let seed = BlendContext {
        table: &orders,
        columns: &order_columns,
        key: 10,
        row: Row(vec![number(1), number(7)]),
        next: None,
    };
    let joined = join(&store, &clause, &customers, &customer_columns, &no_joined, None, seed).unwrap().unwrap();
    assert_eq!(joined.key, 20);
    assert_eq!(joined.row, Row(vec![number(7), string("ann")]));
    assert_eq!(joined.table.name, "customers");
    let outer = joined.next.unwrap();
    assert_eq!(outer.key, 10);
    assert_eq!(outer.row, Row(vec![number(1), number(7)]));
    assert!(outer.next.is_none());
}

#[test]
fn join_without_match_follows_the_operator() {
    let store = shop();
    let orders = plain_table("orders");
    let customers = plain_table("customers");
    let order_columns = fetch_columns(&store, &orders).unwrap();
    let customer_columns = fetch_columns(&store, &customers).unwrap();
    let no_joined: Vec<(&Table, Vec<Column>)> = Vec::new();
    let seed = || BlendContext {
        table: &orders,
        columns: &order_columns,
        key: 11,
        row: Row(vec![number(2), number(8)]),
        next: None,
    };
    let inner = customer_join(JoinOperator::InnerJoin);
    assert!(join(&store, &inner, &customers, &customer_columns, &no_joined, None, seed()).unwrap().is_none());
    let plain = customer_join(JoinOperator::Join);
    assert!(join(&store, &plain, &customers, &customer_columns, &no_joined, None, seed()).unwrap().is_none());
    for operator in [JoinOperator::LeftJoin, JoinOperator::LeftOuterJoin] {
        let left = customer_join(operator);
        let kept = join(&store, &left, &customers, &customer_columns, &no_joined, None, seed()).unwrap().unwrap();
        assert_eq!(kept.key, 11);
        assert_eq!(kept.row, Row(vec![number(2), number(8)]));
        assert!(kept.next.is_none());
    }
    let cross = customer_join(JoinOperator::CrossJoin);
    assert!(matches!(
        join(&store, &cross, &customers, &customer_columns, &no_joined, None, seed()),
        Err(SelectError::UnsupportedJoinOperator)
    ));
}

#[test]
fn join_with_match_does_not_consult_the_operator() {
    let store = shop();
    let orders = plain_table("orders");
    let customers = plain_table("customers");
    let order_columns = fetch_columns(&store, &orders).unwrap();
    let customer_columns = fetch_columns(&store, &customers).unwrap();
    let no_joined: Vec<(&Table, Vec<Column>)> = Vec::new();
    let seed = BlendContext {
        table: &orders,
        columns: &order_columns,
        key: 10,
        row: Row(vec![number(1), number(7)]),
        next: None,
    };
    let cross = customer_join(JoinOperator::CrossJoin);
    let joined = join(&store, &cross, &customers, &customer_columns, &no_joined, None, seed).unwrap().unwrap();
    assert_eq!(joined.key, 20);
}

#[test]
fn join_errors() {
    let store = shop();
    let orders = plain_table("orders");
    let customers = plain_table("customers");
    let gone = plain_table("gone");
    let order_columns = fetch_columns(&store, &orders).unwrap();
    let customer_columns = fetch_columns(&store, &customers).unwrap();
    let no_joined: Vec<(&Table, Vec<Column>)> = Vec::new();
    let seed = || BlendContext {
        table: &orders,
        columns: &order_columns,
        key: 10,
        row: Row(vec![number(1), number(7)]),
        next: None,
    };
    let using = JoinClause {
        operator: JoinOperator::InnerJoin,
        right: JoinRightSide::Table(plain_table("customers")),
        constraint: JoinConstraint::Using(vec![named("id")]),
    };
    assert!(matches!(
        join(&store, &using, &customers, &customer_columns, &no_joined, None, seed()),
        Err(SelectError::UnsupportedJoinConstraint)
    ));
    let inner = customer_join(JoinOperator::InnerJoin);
    assert!(matches!(
        join(&store, &inner, &gone, &customer_columns, &no_joined, None, seed()),
        Err(SelectError::StorageUnavailable)
    ));
    let bad_on = JoinClause {
        operator: JoinOperator::LeftJoin,
        right: JoinRightSide::Table(plain_table("customers")),
        constraint: JoinConstraint::On(Expression::Column(dotted("customers", "name"))),
    };
    assert!(matches!(
        join(&store, &bad_on, &customers, &customer_columns, &no_joined, None, seed()),
        Err(SelectError::TypeMismatch)
    ));
}

#[test]
fn join_predicate_sees_enclosing_context() {
    let store = shop();
    let orders = plain_table("orders");
    let customers = plain_table("customers");
    let order_columns = fetch_columns(&store, &orders).unwrap();
    let customer_columns = fetch_columns(&store, &customers).unwrap();
    let no_joined: Vec<(&Table, Vec<Column>)> = Vec::new();
    let enclosing = plain_table("wanted");
    let enclosing_columns = vec![named("who")];
    let enclosing_row = Row(vec![string("again")]);
    let context = FilterContext {
        table: &enclosing,
        columns: &enclosing_columns,
        row: &enclosing_row,
        next: None,
    };
    let clause = JoinClause {
        operator: JoinOperator::InnerJoin,
        right: JoinRightSide::Table(plain_table("customers")),
        constraint: JoinConstraint::On(columns_equal(
            dotted("customers", "name"),
            dotted("wanted", "who"),
        )),
    };
    let seed = BlendContext {
        table: &orders,
        columns: &order_columns,
        key: 10,
        row: Row(vec![number(1), number(7)]),
        next: None,
    };
    let joined =
        join(&store, &clause, &customers, &customer_columns, &no_joined, Some(&context), seed).unwrap().unwrap();
    assert_eq!(joined.key, 21);
}

#[test]
fn join_clauses_pair_clauses_with_schemas_by_position() {
    let store = shop();
    let orders = plain_table("orders");
    let customers = plain_table("customers");
    let order_columns = fetch_columns(&store, &orders).unwrap();
    let clauses = vec![customer_join(JoinOperator::InnerJoin)];
    let join_columns = vec![(&customers, fetch_columns(&store, &customers).unwrap())];
    let seed = || BlendContext {
        table: &orders,
        columns: &order_columns,
        key: 12,
        row: Row(vec![number(3), number(7)]),
        next: None,
    };
    let joined = join_clauses(&store, &clauses, &join_columns, None, seed()).unwrap().unwrap();
    assert_eq!(joined.key, 20);
    assert_eq!(joined.next.unwrap().key, 12);
    let no_schemas: Vec<(&Table, Vec<Column>)> = Vec::new();
    let untouched = join_clauses(&store, &clauses, &no_schemas, None, seed()).unwrap().unwrap();
    assert_eq!(untouched.key, 12);
    assert!(untouched.next.is_none());
}

#[test]
fn select_params_hold_schemas_in_clause_order() {
    let store = shop();
    let statement = SelectStatement {
        tables: vec![plain_table("orders")],
        fields: vec![FieldDefinition::All],
        join: vec![customer_join(JoinOperator::LeftJoin)],
        where_clause: None,
        limit: None,
    };
    let params = fetch_select_params(&store, &statement).unwrap();
    assert_eq!(params.table.name, "orders");
    assert_eq!(params.columns.len(), 2);
    assert_eq!(params.columns[1].name, "customer");
    assert_eq!(params.join_columns.len(), 1);
    assert_eq!(params.join_columns[0].0.name, "customers");
    assert_eq!(params.join_columns[0].1[1].name, "name");
}

#[test]
fn cursor_yields_rows_one_pull_at_a_time() {
    let store = shop();
    let statement = SelectStatement {
        tables: vec![plain_table("orders")],
        fields: vec![
            FieldDefinition::Col(dotted("orders", "id")),
            FieldDefinition::Col(dotted("customers", "name")),
        ],
        join: vec![customer_join(JoinOperator::InnerJoin)],
        where_clause: None,
        limit: None,
    };
    let params = fetch_select_params(&store, &statement).unwrap();
    let mut cursor = SelectCursor::open(&store, &statement, &params, None).unwrap();
    assert_eq!(cursor.next_row(&store), Ok(Some(Row(vec![number(1), string("ann")]))));
    assert_eq!(cursor.ordinal, 1);
    assert_eq!(cursor.next_row(&store), Ok(Some(Row(vec![number(3), string("ann")]))));
    assert_eq!(cursor.ordinal, 2);
    assert_eq!(cursor.next_row(&store), Ok(None));
    assert!(cursor.done);
    assert_eq!(cursor.next_row(&store), Ok(None));
    assert_eq!(
        select(&store, &statement, &params, None),
        Ok(vec![Row(vec![number(1), string("ann")]), Row(vec![number(3), string("ann")])])
    );
}

#[test]
fn cursor_yields_rows_before_a_later_row_fails() {
    let mut store = shop();
    assert!(store.insert(&"orders".to_string(), 13, Row(vec![string("bad"), number(7)])));
    let statement = SelectStatement {
        tables: vec![plain_table("orders")],
        fields: vec![FieldDefinition::Col(named("id"))],
        join: Vec::new(),
        where_clause: Some(Expression::Compare(
            CompareOp::Greater,
            Box::new(Expression::Column(named("id"))),
            Box::new(Expression::Literal(number(2))),
        )),
        limit: None,
    };
    let params = fetch_select_params(&store, &statement).unwrap();
    let mut cursor = SelectCursor::open(&store, &statement, &params, None).unwrap();
    assert_eq!(cursor.next_row(&store), Ok(Some(Row(vec![number(3)]))));
    assert_eq!(cursor.next_row(&store), Err(SelectError::TypeMismatch));
    assert_eq!(cursor.next_row(&store), Ok(None));
    assert_eq!(select(&store, &statement, &params, None), Err(SelectError::TypeMismatch));
}

#[test]
fn cursor_fails_to_open_on_missing_table() {
    let store = shop();
    let statement = SelectStatement {
        tables: vec![plain_table("orders")],
        fields: vec![FieldDefinition::All],
        join: Vec::new(),
        where_clause: None,
        limit: None,
    };
    let params = fetch_select_params(&store, &statement).unwrap();
    let empty: MemoryStore<u32> = MemoryStore::new();
    assert!(matches!(
        SelectCursor::open(&empty, &statement, &params, None),
        Err(SelectError::StorageUnavailable)
    ));
    assert_eq!(select(&empty, &statement, &params, None), Err(SelectError::StorageUnavailable));
}

#[test]
fn where_sees_enclosing_context_through_select() {
    let store = shop();
    let enclosing = plain_table("wanted");
    let enclosing_columns = vec![named("customer")];
    let enclosing_row = Row(vec![number(8)]);
    let context = FilterContext {
        table: &enclosing,
        columns: &enclosing_columns,
        row: &enclosing_row,
        next: None,
    };
    let statement = SelectStatement {
        tables: vec![plain_table("orders")],
        fields: vec![FieldDefinition::Col(named("id"))],
        join: Vec::new(),
        where_clause: Some(columns_equal(dotted("orders", "customer"), dotted("wanted", "customer"))),
        limit: None,
    };
    let params = fetch_select_params(&store, &statement).unwrap();
    assert_eq!(select(&store, &statement, &params, Some(&context)), Ok(vec![Row(vec![number(2)])]));
}
