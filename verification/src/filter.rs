//! The expression evaluator and the filter built on it: what an expression is
//! worth in a row context, and whether a predicate admits a row.

use vstd::prelude::*;
use crate::context::{
    column_position, find_column, found, is_table_named, lemma_resolve_concat, lookup_in_scope,
    outer_scopes, resolve, same_text, table_matches, BlendContext, FilterContext, ScopeView,
};
use crate::data::{Row, Value, ValueView};
use crate::error::SelectError;
use crate::statement::{
    join_columns_view, Column, ColumnView, CompareOp, Expression, ExpressionView, Table, TableView,
};

verus! {

/// Whether the ordering `op` holds between two integers. The two equality
/// operators are not orderings and hold of no pair here.
pub open spec fn ordered(op: CompareOp, x: int, y: int) -> bool {
    match op {
        CompareOp::Greater => x > y,
        CompareOp::GreaterOrEqual => x >= y,
        CompareOp::Less => x < y,
        CompareOp::LessOrEqual => x <= y,
        _ => false,
    }
}

/// The outcome of a comparison.
///
/// `NULL` compares false to everything, itself included. Equality and
/// inequality are defined between any two values, and values of different
/// types are unequal. The orderings are defined between integers only; on
/// any other pair of non-null values they are a type mismatch.
pub open spec fn compare(op: CompareOp, a: ValueView, b: ValueView) -> Result<bool, SelectError> {
    if a is Null || b is Null {
        Ok(false)
    } else {
        match op {
            CompareOp::Equal => Ok(a == b),
            CompareOp::NotEqual => Ok(a != b),
            _ => match (a, b) {
                (ValueView::Integer(x), ValueView::Integer(y)) => Ok(ordered(op, x as int, y as int)),
                _ => Err(SelectError::TypeMismatch),
            },
        }
    }
}

/// Reads an evaluation outcome as a truth value: anything but a boolean is a
/// type mismatch.
pub open spec fn truth(outcome: Result<ValueView, SelectError>) -> Result<bool, SelectError> {
    match outcome {
        Ok(ValueView::Bool(b)) => Ok(b),
        Ok(_) => Err(SelectError::TypeMismatch),
        Err(e) => Err(e),
    }
}

/// Whether a joined table with its schema could give `target` a value: the
/// reference's qualifier lets it be looked up in the table, and the schema
/// declares its name.
pub open spec fn supplies(joined: (TableView, Seq<ColumnView>), target: ColumnView) -> bool {
    table_matches(joined.0, target.table) && column_position(joined.1, target.name) is Some
}

/// Whether one of the tables that the statement joins could give `target` a
/// value.
pub open spec fn can_supply(joined: Seq<(TableView, Seq<ColumnView>)>, target: ColumnView) -> bool {
    exists|i: int| 0 <= i < joined.len() && supplies(#[trigger] joined[i], target)
}

/// The value of a column reference. A reference that resolves in `scopes`
/// has the value found there. One that resolves nowhere, but that a table
/// joined by the statement could supply, stands for a column of a table
/// without a matching row (an unmatched left join) and is `NULL`. Any other
/// reference is not found.
pub open spec fn column_value(
    target: ColumnView,
    scopes: Seq<ScopeView>,
    joined: Seq<(TableView, Seq<ColumnView>)>,
) -> Result<ValueView, SelectError> {
    match resolve(scopes, target) {
        Some(v) => Ok(v),
        None => if can_supply(joined, target) {
            Ok(ValueView::Null)
        } else {
            Err(SelectError::ColumnNotFound)
        },
    }
}

/// The value of `expr` in the row context `scopes` (innermost scope first),
/// in a statement that joins the tables `joined`.
///
/// Operands are evaluated left to right and the first error wins. `AND` and
/// `OR` do not evaluate their right operand once the left one decides.
pub open spec fn evaluate(
    expr: ExpressionView,
    scopes: Seq<ScopeView>,
    joined: Seq<(TableView, Seq<ColumnView>)>,
) -> Result<ValueView, SelectError>
    decreases expr,
{
    match expr {
        ExpressionView::Literal(v) => Ok(v),
        ExpressionView::Column(c) => column_value(c, scopes, joined),
        ExpressionView::Compare(op, l, r) => match evaluate(*l, scopes, joined) {
            Ok(a) => match evaluate(*r, scopes, joined) {
                Ok(b) => match compare(op, a, b) {
                    Ok(t) => Ok(ValueView::Bool(t)),
                    Err(e) => Err(e),
                },
                Err(e) => Err(e),
            },
            Err(e) => Err(e),
        },
        ExpressionView::And(l, r) => match truth(evaluate(*l, scopes, joined)) {
            Ok(true) => match truth(evaluate(*r, scopes, joined)) {
                Ok(b) => Ok(ValueView::Bool(b)),
                Err(e) => Err(e),
            },
            Ok(false) => Ok(ValueView::Bool(false)),
            Err(e) => Err(e),
        },
        ExpressionView::Or(l, r) => match truth(evaluate(*l, scopes, joined)) {
            Ok(true) => Ok(ValueView::Bool(true)),
            Ok(false) => match truth(evaluate(*r, scopes, joined)) {
                Ok(b) => Ok(ValueView::Bool(b)),
                Err(e) => Err(e),
            },
            Err(e) => Err(e),
        },
        ExpressionView::Not(e) => match truth(evaluate(*e, scopes, joined)) {
            Ok(b) => Ok(ValueView::Bool(!b)),
            Err(e) => Err(e),
        },
    }
}

/// Whether `predicate` admits the row context `scopes`, in a statement that
/// joins the tables `joined`. An absent predicate admits every row.
pub open spec fn admits(
    predicate: Option<ExpressionView>,
    scopes: Seq<ScopeView>,
    joined: Seq<(TableView, Seq<ColumnView>)>,
) -> Result<bool, SelectError> {
    match predicate {
        Some(e) => truth(evaluate(e, scopes, joined)),
        None => Ok(true),
    }
}

/// The view of an optional list of joined tables: empty where there is
/// none.
pub open spec fn joined_view(joined: Option<&Vec<(&Table, Vec<Column>)>>) -> Seq<
    (TableView, Seq<ColumnView>),
> {
    match joined {
        Some(list) => join_columns_view(list@),
        None => Seq::empty(),
    }
}

/// The view of an evaluation outcome.
pub open spec fn outcome_view(outcome: Result<Value, SelectError>) -> Result<ValueView, SelectError> {
    match outcome {
        Ok(v) => Ok(v@),
        Err(e) => Err(e),
    }
}

/// The scope of a single candidate row, or none.
pub open spec fn item_scopes(item: Option<(&Table, &Vec<Column>, &Row)>) -> Seq<ScopeView> {
    match item {
        Some((table, columns, row)) => seq![
            ScopeView { table: table@, columns: columns.deep_view(), row: row@ },
        ],
        None => Seq::empty(),
    }
}

/// The scopes of an optional context chain.
pub open spec fn chain_scopes<K>(chain: Option<&BlendContext<K>>) -> Seq<ScopeView> {
    match chain {
        Some(c) => c@,
        None => Seq::empty(),
    }
}

/// Everything an expression can see while it is evaluated: a candidate row
/// under trial, the context chain, and the context of an enclosing query, in
/// this order of precedence; and the tables that the statement joins, whose
/// columns are `NULL` where the chain has no row of theirs. Nothing of this
/// is owned or changed.
pub struct Environment<'b, 'a, K> {
    pub item: Option<(&'b Table, &'b Vec<Column>, &'b Row)>,
    pub chain: Option<&'b BlendContext<'a, K>>,
    pub outer: Option<&'b FilterContext<'b>>,
    pub joined: Option<&'b Vec<(&'b Table, Vec<Column>)>>,
}

impl<'b, 'a, K> Environment<'b, 'a, K> {
    /// The scopes in view, innermost first.
    pub open spec fn scopes(&self) -> Seq<ScopeView> {
        item_scopes(self.item) + chain_scopes(self.chain) + outer_scopes(self.outer)
    }

    /// Resolves a column reference in this environment.
    pub fn get_value(&self, target: &Column) -> (value: Option<&'b Value>)
        ensures
            found(value) == resolve(self.scopes(), target@),
    {
        proof {
            lemma_resolve_concat(
                item_scopes(self.item) + chain_scopes(self.chain),
                outer_scopes(self.outer),
                target@,
            );
            lemma_resolve_concat(item_scopes(self.item), chain_scopes(self.chain), target@);
            assert(resolve(Seq::<ScopeView>::empty(), target@) is None);
        }
        let in_item = match self.item {
            Some((table, columns, row)) => {
                proof {
                    let s = item_scopes(self.item);
                    assert(s.drop_first() =~= Seq::<ScopeView>::empty());
                }
                lookup_in_scope(table, columns, row, target)
            },
            None => None,
        };
        assert(found(in_item) == resolve(item_scopes(self.item), target@));
        if in_item.is_some() {
            return in_item;
        }
        let in_chain = match self.chain {
            Some(chain) => chain.get_value(target),
            None => None,
        };
        if in_chain.is_some() {
            return in_chain;
        }
        match self.outer {
            Some(outer) => outer.get_value(target),
            None => None,
        }
    }
}

impl<'b, 'a, K> Environment<'b, 'a, K> {
    /// Whether one of the joined tables could give `target` a value.
    pub fn can_supply(&self, target: &Column) -> (able: bool)
        ensures
            able == can_supply(joined_view(self.joined), target@),
    {
        let list = match self.joined {
            Some(list) => list,
            None => {
                return false;
            },
        };
        let ghost joined = join_columns_view(list@);
        let mut i: usize = 0;
        while i < list.len()
            invariant
                i <= list.len(),
                joined == join_columns_view(list@),
                joined == joined_view(self.joined),
                forall|j: int| 0 <= j < i ==> !supplies(#[trigger] joined[j], target@),
            decreases list.len() - i,
        {
            let entry = &list[i];
            assert(joined[i as int] == (entry.0@, entry.1.deep_view()));
            let qualified = match &target.table {
                Some(name) => is_table_named(entry.0, name),
                None => true,
            };
            if qualified && find_column(&entry.1, &target.name).is_some() {
                assert(supplies(joined[i as int], target@));
                return true;
            }
            i += 1;
        }
        false
    }

    /// The value of a column reference in this environment.
    pub fn column_value(&self, target: &Column) -> (outcome: Result<Value, SelectError>)
        ensures
            outcome_view(outcome) == column_value(
                target@,
                self.scopes(),
                joined_view(self.joined),
            ),
    {
        match self.get_value(target) {
            Some(v) => Ok(v.clone()),
            None => if self.can_supply(target) {
                Ok(Value::Null)
            } else {
                Err(SelectError::ColumnNotFound)
            },
        }
    }
}

/// Whether two values are equal: the same variant holding the same content.
pub fn values_equal(a: &Value, b: &Value) -> (equal: bool)
    ensures
        equal == (a@ == b@),
{
    match (a, b) {
        (Value::Null, Value::Null) => true,
        (Value::Bool(x), Value::Bool(y)) => *x == *y,
        (Value::Integer(x), Value::Integer(y)) => *x == *y,
        (Value::Text(x), Value::Text(y)) => same_text(x, y),
        _ => false,
    }
}

/// Compares two values under `op`.
pub fn compare_values(op: CompareOp, a: &Value, b: &Value) -> (outcome: Result<bool, SelectError>)
    ensures
        outcome == compare(op, a@, b@),
{
    match (a, b) {
        (Value::Null, _) => Ok(false),
        (_, Value::Null) => Ok(false),
        _ => match op {
            CompareOp::Equal => Ok(values_equal(a, b)),
            CompareOp::NotEqual => Ok(!values_equal(a, b)),
            _ => match (a, b) {
                (Value::Integer(x), Value::Integer(y)) => Ok(
                    match op {
                        CompareOp::Greater => *x > *y,
                        CompareOp::GreaterOrEqual => *x >= *y,
                        CompareOp::Less => *x < *y,
                        _ => *x <= *y,
                    },
                ),
                _ => Err(SelectError::TypeMismatch),
            },
        },
    }
}

/// Reads a value as a truth value.
pub fn as_truth(value: &Value) -> (outcome: Result<bool, SelectError>)
    ensures
        outcome == truth(Ok(value@)),
{
    match value {
        Value::Bool(b) => Ok(*b),
        _ => Err(SelectError::TypeMismatch),
    }
}

/// Evaluates `expr` in `env`.
pub fn evaluate_expression<'b, 'a, K>(expr: &Expression, env: &Environment<'b, 'a, K>) -> (outcome:
    Result<Value, SelectError>)
    ensures
        outcome_view(outcome) == evaluate(expr@, env.scopes(), joined_view(env.joined)),
    decreases expr, 0int,
{
    match expr {
        Expression::Literal(v) => Ok(v.clone()),
        Expression::Column(c) => env.column_value(c),
        Expression::Compare(op, l, r) => {
            let a = match evaluate_expression(&**l, env) {
                Ok(a) => a,
                Err(e) => { return Err(e); },
            };
            let b = match evaluate_expression(&**r, env) {
                Ok(b) => b,
                Err(e) => { return Err(e); },
            };
            match compare_values(*op, &a, &b) {
                Ok(t) => Ok(Value::Bool(t)),
                Err(e) => Err(e),
            }
        },
        Expression::And(l, r) => {
            match check_expression(&**l, env) {
                Ok(true) => match check_expression(&**r, env) {
                    Ok(b) => Ok(Value::Bool(b)),
                    Err(e) => Err(e),
                },
                Ok(false) => Ok(Value::Bool(false)),
                Err(e) => Err(e),
            }
        },
        Expression::Or(l, r) => {
            match check_expression(&**l, env) {
                Ok(true) => Ok(Value::Bool(true)),
                Ok(false) => match check_expression(&**r, env) {
                    Ok(b) => Ok(Value::Bool(b)),
                    Err(e) => Err(e),
                },
                Err(e) => Err(e),
            }
        },
        Expression::Not(e) => {
            match check_expression(&**e, env) {
                Ok(b) => Ok(Value::Bool(!b)),
                Err(e) => Err(e),
            }
        },
    }
}

/// Evaluates `expr` in `env` as a predicate.
pub fn check_expression<'b, 'a, K>(expr: &Expression, env: &Environment<'b, 'a, K>) -> (outcome:
    Result<bool, SelectError>)
    ensures
        outcome == truth(evaluate(expr@, env.scopes(), joined_view(env.joined))),
    decreases expr, 1int,
{
    match evaluate_expression(expr, env) {
        Ok(v) => as_truth(&v),
        Err(e) => Err(e),
    }
}

/// A predicate together with the context of the enclosing query, if any,
/// and the tables that the statement joins, if any.
pub struct Filter<'a> {
    pub where_clause: Option<&'a Expression>,
    pub context: Option<&'a FilterContext<'a>>,
    pub joined: Option<&'a Vec<(&'a Table, Vec<Column>)>>,
}

impl<'a> Filter<'a> {
    /// The predicate, absent where every row is admitted.
    pub open spec fn predicate(&self) -> Option<ExpressionView> {
        match self.where_clause {
            Some(e) => Some(e@),
            None => None,
        }
    }

    pub fn new(
        where_clause: Option<&'a Expression>,
        context: Option<&'a FilterContext<'a>>,
        joined: Option<&'a Vec<(&'a Table, Vec<Column>)>>,
    ) -> (filter: Self)
        ensures
            filter.where_clause == where_clause,
            filter.context == context,
            filter.joined == joined,
    {
        Filter { where_clause, context, joined }
    }

    /// Whether the predicate admits a single row of `table`, seen in front
    /// of the enclosing context.
    pub fn check(&self, table: &Table, columns: &Vec<Column>, row: &Row) -> (outcome: Result<
        bool,
        SelectError,
    >)
        ensures
            outcome == admits(
                self.predicate(),
                item_scopes(Some((table, columns, row))) + outer_scopes(self.context),
                joined_view(self.joined),
            ),
    {
        match self.where_clause {
            Some(expr) => {
                let env: Environment<'_, '_, ()> = Environment {
                    item: Some((table, columns, row)),
                    chain: None,
                    outer: self.context,
                    joined: self.joined,
                };
                assert(env.scopes() =~= item_scopes(Some((table, columns, row))) + outer_scopes(
                    self.context,
                ));
                check_expression(expr, &env)
            },
            None => Ok(true),
        }
    }
}

/// A filter applied to a context chain.
pub struct BlendedFilter<'b, 'a, K> {
    pub filter: &'b Filter<'a>,
    pub context: &'b BlendContext<'a, K>,
}

impl<'b, 'a, K> BlendedFilter<'b, 'a, K> {
    pub fn new(filter: &'b Filter<'a>, context: &'b BlendContext<'a, K>) -> (blended: Self)
        ensures
            blended.filter == filter,
            blended.context == context,
    {
        BlendedFilter { filter, context }
    }

    /// The scopes the predicate sees: the candidate row `item` if there is
    /// one, then the chain, then the enclosing context.
    pub open spec fn scopes(&self, item: Option<(&Table, &Vec<Column>, &Row)>) -> Seq<ScopeView> {
        item_scopes(item) + self.context@ + outer_scopes(self.filter.context)
    }

    /// Whether the predicate admits the chain, with the candidate row `item`
    /// in front of it where one is given.
    pub fn check(&self, item: Option<(&Table, &Vec<Column>, &Row)>) -> (outcome: Result<
        bool,
        SelectError,
    >)
        ensures
            outcome == admits(
                self.filter.predicate(),
                self.scopes(item),
                joined_view(self.filter.joined),
            ),
    {
        match self.filter.where_clause {
            Some(expr) => {
                let env = Environment {
                    item,
                    chain: Some(self.context),
                    outer: self.filter.context,
                    joined: self.filter.joined,
                };
                check_expression(expr, &env)
            },
            None => Ok(true),
        }
    }
}

} // verus!
