//! The join engine: one join clause applied to one context chain, and the
//! clauses of a statement applied in order.

use vstd::prelude::*;
use crate::context::{outer_scopes, BlendContext, FilterContext, ScopeView};
use crate::data::{Row, ValueView};
use crate::error::SelectError;
use crate::filter::{admits, joined_view, BlendedFilter, Filter};
use crate::statement::{
    join_columns_view, Column, ColumnView, ExpressionView, JoinClause, JoinClauseView,
    JoinConstraint, JoinConstraintView, JoinOperator, Table, TableView,
};
use crate::storage::{can_scan, Store, TableModel};

verus! {

/// The scope that a stored row of `table` contributes.
pub open spec fn entry_scope<K>(
    table: TableView,
    columns: Seq<ColumnView>,
    entry: (K, Seq<ValueView>),
) -> ScopeView {
    ScopeView { table, columns, row: entry.1 }
}

/// Whether the `ON` predicate admits the stored row `entry` as a match for a
/// chain: the predicate sees the candidate's scope first, then the chain,
/// then the enclosing context. A column of a table that the statement joins
/// (`joined`), but of which the chain holds no row, is `NULL` to it.
pub open spec fn candidate_outcome<K>(
    on: ExpressionView,
    table: TableView,
    columns: Seq<ColumnView>,
    entry: (K, Seq<ValueView>),
    chain: Seq<ScopeView>,
    outer: Seq<ScopeView>,
    joined: Seq<(TableView, Seq<ColumnView>)>,
) -> Result<bool, SelectError> {
    admits(Some(on), seq![entry_scope(table, columns, entry)] + chain + outer, joined)
}

/// The first of `rows`, in scan order, that the `ON` predicate admits when
/// it is put in front of the chain and the enclosing context. A predicate
/// that fails on a row before any match fails the search.
pub open spec fn first_match<K>(
    on: ExpressionView,
    table: TableView,
    columns: Seq<ColumnView>,
    rows: Seq<(K, Seq<ValueView>)>,
    chain: Seq<ScopeView>,
    outer: Seq<ScopeView>,
    joined: Seq<(TableView, Seq<ColumnView>)>,
) -> Result<Option<(K, Seq<ValueView>)>, SelectError>
    decreases rows.len(),
{
    if rows.len() == 0 {
        Ok(None)
    } else {
        match candidate_outcome(on, table, columns, rows[0], chain, outer, joined) {
            Ok(true) => Ok(Some(rows[0])),
            Ok(false) => first_match(on, table, columns, rows.drop_first(), chain, outer, joined),
            Err(e) => Err(e),
        }
    }
}

/// The stored row that a join clause picks for a chain, if any: the
/// constraint must be `ON <predicate>`, storage must be able to scan the
/// joined table, and the first matching row in scan order is taken.
pub open spec fn join_candidate<K>(
    tables: Map<Seq<char>, TableModel<K>>,
    clause: JoinClauseView,
    table: TableView,
    columns: Seq<ColumnView>,
    outer: Seq<ScopeView>,
    chain: Seq<ScopeView>,
    joined: Seq<(TableView, Seq<ColumnView>)>,
) -> Result<Option<(K, Seq<ValueView>)>, SelectError> {
    match clause.constraint {
        JoinConstraintView::On(on) => if can_scan(tables, table.name) {
            first_match(on, table, columns, tables[table.name].rows, chain, outer, joined)
        } else {
            Err(SelectError::StorageUnavailable)
        },
        JoinConstraintView::Using(_) => Err(SelectError::UnsupportedJoinConstraint),
    }
}

/// What becomes of a chain for which the joined table holds no match: a left
/// join passes it on as it is, an inner join drops it, and no other operator
/// is supported.
pub open spec fn unmatched(operator: JoinOperator, chain: Seq<ScopeView>) -> Result<
    Option<Seq<ScopeView>>,
    SelectError,
> {
    match operator {
        JoinOperator::LeftJoin | JoinOperator::LeftOuterJoin => Ok(Some(chain)),
        JoinOperator::Join | JoinOperator::InnerJoin => Ok(None),
        _ => Err(SelectError::UnsupportedJoinOperator),
    }
}

/// One join clause applied to one chain: the chain extended by the scope of
/// the matching row, or what the operator makes of a chain without a match.
pub open spec fn join_row<K>(
    tables: Map<Seq<char>, TableModel<K>>,
    clause: JoinClauseView,
    table: TableView,
    columns: Seq<ColumnView>,
    outer: Seq<ScopeView>,
    chain: Seq<ScopeView>,
    joined: Seq<(TableView, Seq<ColumnView>)>,
) -> Result<Option<Seq<ScopeView>>, SelectError> {
    match join_candidate(tables, clause, table, columns, outer, chain, joined) {
        Ok(Some(entry)) => Ok(Some(seq![entry_scope(table, columns, entry)] + chain)),
        Ok(None) => unmatched(clause.operator, chain),
        Err(e) => Err(e),
    }
}

/// The view of the outcome of a stage that passes a chain on or drops it.
pub open spec fn chain_outcome_view<K>(outcome: Result<Option<BlendContext<K>>, SelectError>) -> Result<
    Option<Seq<ScopeView>>,
    SelectError,
> {
    match outcome {
        Ok(Some(chain)) => Ok(Some(chain@)),
        Ok(None) => Ok(None),
        Err(e) => Err(e),
    }
}

/// Applies one join clause to one chain: scans the joined table for the
/// first row that the `ON` predicate admits and extends the chain with it.
/// The chain is evaluated as it stands; the predicate sees the candidate row
/// first, then the chain, then the enclosing context. `join_columns` are the
/// tables that the statement joins: a column of one of them of which the
/// chain holds no row is `NULL` to the predicate.
pub fn join<'a, K, S: Store<K>>(
    storage: &'a S,
    join_clause: &'a JoinClause,
    table: &'a Table,
    columns: &'a Vec<Column>,
    join_columns: &'a Vec<(&'a Table, Vec<Column>)>,
    filter_context: Option<&'a FilterContext<'a>>,
    blend_context: BlendContext<'a, K>,
) -> (outcome: Result<Option<BlendContext<'a, K>>, SelectError>)
    ensures
        chain_outcome_view(outcome) == join_row(
            storage.tables(),
            join_clause@,
            table@,
            columns.deep_view(),
            outer_scopes(filter_context),
            blend_context@,
            join_columns_view(join_columns@),
        ),
        match outcome {
            Ok(Some(chain)) => chain.keys() == match join_candidate(
                storage.tables(),
                join_clause@,
                table@,
                columns.deep_view(),
                outer_scopes(filter_context),
                blend_context@,
                join_columns_view(join_columns@),
            ) {
                Ok(Some(entry)) => seq![entry.0] + blend_context.keys(),
                _ => blend_context.keys(),
            },
            _ => true,
        },
{
    let on = match &join_clause.constraint {
        JoinConstraint::On(on) => on,
        JoinConstraint::Using(_) => {
            return Err(SelectError::UnsupportedJoinConstraint);
        },
    };
    let mut scan = match storage.scan_rows(&table.name) {
        Ok(scan) => scan,
        Err(e) => {
            return Err(e);
        },
    };
    let filter = Filter::new(Some(on), filter_context, Some(join_columns));
    let blended = BlendedFilter::new(&filter, &blend_context);
    let ghost outer = outer_scopes(filter_context);
    let ghost joined = join_columns_view(join_columns@);
    let ghost target = first_match(
        on@,
        table@,
        columns.deep_view(),
        storage.tables()[table@.name].rows,
        blend_context@,
        outer,
        joined,
    );
    let mut matched: Option<(K, Row)> = None;
    loop
        invariant_except_break
            matched is None,
            first_match(
                on@,
                table@,
                columns.deep_view(),
                storage.pending(&scan),
                blend_context@,
                outer,
                joined,
            ) == target,
        invariant
            blended.filter.predicate() == Some(on@),
            blended.context@ == blend_context@,
            outer_scopes(blended.filter.context) == outer,
            joined_view(blended.filter.joined) == joined,
            outer == outer_scopes(filter_context),
            joined == join_columns_view(join_columns@),
            target == join_candidate(
                storage.tables(),
                join_clause@,
                table@,
                columns.deep_view(),
                outer,
                blend_context@,
                joined,
            ),
        ensures
            match matched {
                Some((key, row)) => target == Ok::<Option<(K, Seq<ValueView>)>, SelectError>(
                    Some((key, row@)),
                ),
                None => target == Ok::<Option<(K, Seq<ValueView>)>, SelectError>(None),
            },
        decreases storage.pending(&scan).len(),
    {
        match storage.next_row(&mut scan) {
            Some((key, row)) => {
                match blended.check(Some((table, columns, &row))) {
                    Ok(true) => {
                        matched = Some((key, row));
                        break ;
                    },
                    Ok(false) => {},
                    Err(e) => {
                        return Err(e);
                    },
                }
            },
            None => {
                break ;
            },
        }
    }
    match matched {
        Some((key, row)) => Ok(
            Some(BlendContext { table, columns, key, row, next: Some(Box::new(blend_context)) }),
        ),
        None => match join_clause.operator {
            JoinOperator::LeftJoin | JoinOperator::LeftOuterJoin => Ok(Some(blend_context)),
            JoinOperator::Join | JoinOperator::InnerJoin => Ok(None),
            _ => Err(SelectError::UnsupportedJoinOperator),
        },
    }
}

/// The join clauses from position `from` on, applied to a chain strictly in
/// clause order, each with the joined table and schema at the same position
/// of `join_columns`. A chain that one clause drops meets no later clause.
/// To every `ON` predicate the columns of the joined tables of which the
/// chain holds no row are `NULL`.
pub open spec fn join_all<K>(
    tables: Map<Seq<char>, TableModel<K>>,
    clauses: Seq<JoinClauseView>,
    join_columns: Seq<(TableView, Seq<ColumnView>)>,
    outer: Seq<ScopeView>,
    chain: Seq<ScopeView>,
    from: int,
) -> Result<Option<Seq<ScopeView>>, SelectError>
    decreases clauses.len() - from,
{
    if from < 0 || from >= clauses.len() || from >= join_columns.len() {
        Ok(Some(chain))
    } else {
        match join_row(
            tables,
            clauses[from],
            join_columns[from].0,
            join_columns[from].1,
            outer,
            chain,
            join_columns,
        ) {
            Ok(Some(extended)) => join_all(tables, clauses, join_columns, outer, extended, from + 1),
            Ok(None) => Ok(None),
            Err(e) => Err(e),
        }
    }
}

/// The row keys along the chain that `join_all` yields, innermost first,
/// where `keys` are those along `chain`: each clause that finds a match puts
/// the key of the matched row in front.
pub open spec fn join_all_keys<K>(
    tables: Map<Seq<char>, TableModel<K>>,
    clauses: Seq<JoinClauseView>,
    join_columns: Seq<(TableView, Seq<ColumnView>)>,
    outer: Seq<ScopeView>,
    chain: Seq<ScopeView>,
    keys: Seq<K>,
    from: int,
) -> Seq<K>
    decreases clauses.len() - from,
{
    if from < 0 || from >= clauses.len() || from >= join_columns.len() {
        keys
    } else {
        match join_candidate(
            tables,
            clauses[from],
            join_columns[from].0,
            join_columns[from].1,
            outer,
            chain,
            join_columns,
        ) {
            Ok(Some(entry)) => join_all_keys(
                tables,
                clauses,
                join_columns,
                outer,
                seq![entry_scope(join_columns[from].0, join_columns[from].1, entry)] + chain,
                seq![entry.0] + keys,
                from + 1,
            ),
            _ => join_all_keys(tables, clauses, join_columns, outer, chain, keys, from + 1),
        }
    }
}

/// Threads a seed chain through the join clauses in clause order, stopping
/// at the first clause that drops it.
pub fn join_clauses<'a, K, S: Store<K>>(
    storage: &'a S,
    clauses: &'a Vec<JoinClause>,
    join_columns: &'a Vec<(&'a Table, Vec<Column>)>,
    filter_context: Option<&'a FilterContext<'a>>,
    init_context: BlendContext<'a, K>,
) -> (outcome: Result<Option<BlendContext<'a, K>>, SelectError>)
    ensures
        chain_outcome_view(outcome) == join_all(
            storage.tables(),
            clauses.deep_view(),
            join_columns_view(join_columns@),
            outer_scopes(filter_context),
            init_context@,
            0,
        ),
        match outcome {
            Ok(Some(chain)) => chain.keys() == join_all_keys(
                storage.tables(),
                clauses.deep_view(),
                join_columns_view(join_columns@),
                outer_scopes(filter_context),
                init_context@,
                init_context.keys(),
                0,
            ),
            _ => true,
        },
{
    let ghost target = join_all(
        storage.tables(),
        clauses.deep_view(),
        join_columns_view(join_columns@),
        outer_scopes(filter_context),
        init_context@,
        0,
    );
    let ghost seed = init_context@;
    let ghost target_keys = join_all_keys(
        storage.tables(),
        clauses.deep_view(),
        join_columns_view(join_columns@),
        outer_scopes(filter_context),
        init_context@,
        init_context.keys(),
        0,
    );
    let mut context = init_context;
    let mut i: usize = 0;
    while i < clauses.len() && i < join_columns.len()
        invariant
            i <= clauses.len(),
            i <= join_columns.len(),
            seed == init_context@,
            target == join_all(
                storage.tables(),
                clauses.deep_view(),
                join_columns_view(join_columns@),
                outer_scopes(filter_context),
                seed,
                0,
            ),
            join_all(
                storage.tables(),
                clauses.deep_view(),
                join_columns_view(join_columns@),
                outer_scopes(filter_context),
                context@,
                i as int,
            ) == target,
            join_all_keys(
                storage.tables(),
                clauses.deep_view(),
                join_columns_view(join_columns@),
                outer_scopes(filter_context),
                context@,
                context.keys(),
                i as int,
            ) == target_keys,
        decreases clauses.len() - i,
    {
        let joined = &join_columns[i];
        assert(clauses.deep_view()[i as int] == clauses[i as int]@);
        assert(join_columns_view(join_columns@)[i as int] == (joined.0@, joined.1.deep_view()));
        match join(
            storage,
            &clauses[i],
            joined.0,
            &joined.1,
            join_columns,
            filter_context,
            context,
        ) {
            Ok(Some(extended)) => {
                context = extended;
            },
            Ok(None) => {
                return Ok(None);
            },
            Err(e) => {
                return Err(e);
            },
        }
        i += 1;
    }
    Ok(Some(context))
}

} // verus!
