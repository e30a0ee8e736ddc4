//! The join engine: which row a join takes, what becomes of a chain without
//! a match, and that joins keep chains valid.

use vstd::prelude::*;
use crate::context::ScopeView;
use crate::data::ValueView;
use crate::error::SelectError;
use crate::join::{candidate_outcome, entry_scope, first_match, join_all, join_row};
use crate::statement::{
    ColumnView, ExpressionView, JoinClauseView, JoinConstraintView, JoinOperator, TableView,
};
use crate::storage::{can_scan, rows_fit, TableModel};

verus! {

/// The search for a match stops at the first row that the predicate
/// admits; the rows behind it are not looked at.
pub proof fn lemma_first_match_found<K>(
    on: ExpressionView,
    table: TableView,
    columns: Seq<ColumnView>,
    rows: Seq<(K, Seq<ValueView>)>,
    chain: Seq<ScopeView>,
    outer: Seq<ScopeView>,
    m: int,
    joined: Seq<(TableView, Seq<ColumnView>)>,
)
    requires
        0 <= m < rows.len(),
        candidate_outcome(on, table, columns, rows[m], chain, outer, joined) == Ok::<bool, SelectError>(true),
        forall|j: int|
            0 <= j < m ==> candidate_outcome(on, table, columns, #[trigger] rows[j], chain, outer, joined)
                == Ok::<bool, SelectError>(false),
    ensures
        first_match(on, table, columns, rows, chain, outer, joined) == Ok::<
            Option<(K, Seq<ValueView>)>,
            SelectError,
        >(Some(rows[m])),
    decreases m,
{
    if m > 0 {
        let rest = rows.drop_first();
        assert(rest[m - 1] == rows[m]);
        assert forall|j: int| 0 <= j < m - 1 implies candidate_outcome(
            on,
            table,
            columns,
            #[trigger] rest[j],
            chain,
            outer,
            joined,
        ) == Ok::<bool, SelectError>(false) by {
            assert(rest[j] == rows[j + 1]);
        }
        assert(candidate_outcome(on, table, columns, rows[0], chain, outer, joined) == Ok::<
            bool,
            SelectError,
        >(false));
        lemma_first_match_found(on, table, columns, rest, chain, outer, m - 1, joined);
    }
}

/// Where the predicate admits no row, the search finds nothing.
pub proof fn lemma_first_match_none<K>(
    on: ExpressionView,
    table: TableView,
    columns: Seq<ColumnView>,
    rows: Seq<(K, Seq<ValueView>)>,
    chain: Seq<ScopeView>,
    outer: Seq<ScopeView>,
    joined: Seq<(TableView, Seq<ColumnView>)>,
)
    requires
        forall|j: int|
            0 <= j < rows.len() ==> candidate_outcome(
                on,
                table,
                columns,
                #[trigger] rows[j],
                chain,
                outer,
                joined,
            ) == Ok::<bool, SelectError>(false),
    ensures
        first_match(on, table, columns, rows, chain, outer, joined) == Ok::<
            Option<(K, Seq<ValueView>)>,
            SelectError,
        >(None),
    decreases rows.len(),
{
    if rows.len() > 0 {
        let rest = rows.drop_first();
        assert forall|j: int| 0 <= j < rest.len() implies candidate_outcome(
            on,
            table,
            columns,
            #[trigger] rest[j],
            chain,
            outer,
            joined,
        ) == Ok::<bool, SelectError>(false) by {
            assert(rest[j] == rows[j + 1]);
        }
        assert(candidate_outcome(on, table, columns, rows[0], chain, outer, joined) == Ok::<
            bool,
            SelectError,
        >(false));
        lemma_first_match_none(on, table, columns, rest, chain, outer, joined);
    }
}

/// A join takes the first match in scan order and only that one: where the
/// row at position `m` of the joined table is the first that the `ON`
/// predicate admits, the chain is extended by exactly that row, however many
/// of the rows behind it would match as well. This holds of every join
/// operator.
pub proof fn theorem_join_takes_first_match<K>(
    tables: Map<Seq<char>, TableModel<K>>,
    clause: JoinClauseView,
    on: ExpressionView,
    table: TableView,
    columns: Seq<ColumnView>,
    outer: Seq<ScopeView>,
    chain: Seq<ScopeView>,
    m: int,
    joined: Seq<(TableView, Seq<ColumnView>)>,
)
    requires
        clause.constraint == JoinConstraintView::On(on),
        can_scan(tables, table.name),
        0 <= m < tables[table.name].rows.len(),
        candidate_outcome(on, table, columns, tables[table.name].rows[m], chain, outer, joined) == Ok::<
            bool,
            SelectError,
        >(true),
        forall|j: int|
            0 <= j < m ==> candidate_outcome(
                on,
                table,
                columns,
                #[trigger] tables[table.name].rows[j],
                chain,
                outer,
                joined,
            ) == Ok::<bool, SelectError>(false),
    ensures
        join_row(tables, clause, table, columns, outer, chain, joined) == Ok::<
            Option<Seq<ScopeView>>,
            SelectError,
        >(Some(seq![entry_scope(table, columns, tables[table.name].rows[m])] + chain)),
{
    lemma_first_match_found(on, table, columns, tables[table.name].rows, chain, outer, m, joined);
}

/// An inner join drops a chain for which the joined table holds no match.
pub proof fn theorem_inner_join_drops_unmatched<K>(
    tables: Map<Seq<char>, TableModel<K>>,
    clause: JoinClauseView,
    on: ExpressionView,
    table: TableView,
    columns: Seq<ColumnView>,
    outer: Seq<ScopeView>,
    chain: Seq<ScopeView>,
    joined: Seq<(TableView, Seq<ColumnView>)>,
)
    requires
        clause.constraint == JoinConstraintView::On(on),
        clause.operator == JoinOperator::Join || clause.operator == JoinOperator::InnerJoin,
        can_scan(tables, table.name),
        forall|j: int|
            0 <= j < tables[table.name].rows.len() ==> candidate_outcome(
                on,
                table,
                columns,
                #[trigger] tables[table.name].rows[j],
                chain,
                outer,
                joined,
            ) == Ok::<bool, SelectError>(false),
    ensures
        join_row(tables, clause, table, columns, outer, chain, joined) == Ok::<
            Option<Seq<ScopeView>>,
            SelectError,
        >(None),
{
    lemma_first_match_none(on, table, columns, tables[table.name].rows, chain, outer, joined);
}

/// A left join passes a chain for which the joined table holds no match on
/// as it is: the row survives, and the joined table contributes no scope.
pub proof fn theorem_left_join_keeps_unmatched<K>(
    tables: Map<Seq<char>, TableModel<K>>,
    clause: JoinClauseView,
    on: ExpressionView,
    table: TableView,
    columns: Seq<ColumnView>,
    outer: Seq<ScopeView>,
    chain: Seq<ScopeView>,
    joined: Seq<(TableView, Seq<ColumnView>)>,
)
    requires
        clause.constraint == JoinConstraintView::On(on),
        clause.operator == JoinOperator::LeftJoin || clause.operator == JoinOperator::LeftOuterJoin,
        can_scan(tables, table.name),
        forall|j: int|
            0 <= j < tables[table.name].rows.len() ==> candidate_outcome(
                on,
                table,
                columns,
                #[trigger] tables[table.name].rows[j],
                chain,
                outer,
                joined,
            ) == Ok::<bool, SelectError>(false),
    ensures
        join_row(tables, clause, table, columns, outer, chain, joined) == Ok::<
            Option<Seq<ScopeView>>,
            SelectError,
        >(Some(chain)),
{
    lemma_first_match_none(on, table, columns, tables[table.name].rows, chain, outer, joined);
}

/// Every scope of the chain has a row that lines up with its schema.
pub open spec fn chain_well_formed(chain: Seq<ScopeView>) -> bool {
    forall|i: int| 0 <= i < chain.len() ==> (#[trigger] chain[i]).well_formed()
}

/// The row that a search finds is one of the rows searched, so it fits the
/// schema if they all do.
pub proof fn lemma_first_match_fits<K>(
    on: ExpressionView,
    table: TableView,
    columns: Seq<ColumnView>,
    rows: Seq<(K, Seq<ValueView>)>,
    chain: Seq<ScopeView>,
    outer: Seq<ScopeView>,
    joined: Seq<(TableView, Seq<ColumnView>)>,
)
    requires
        rows_fit(rows, columns),
    ensures
        match first_match(on, table, columns, rows, chain, outer, joined) {
            Ok(Some(entry)) => entry.1.len() == columns.len(),
            _ => true,
        },
    decreases rows.len(),
{
    if rows.len() > 0 {
        let rest = rows.drop_first();
        assert(rows[0].1.len() == columns.len());
        assert forall|i: int| 0 <= i < rest.len() implies (#[trigger] rest[i]).1.len()
            == columns.len() by {
            assert(rest[i] == rows[i + 1]);
        }
        lemma_first_match_fits(on, table, columns, rest, chain, outer, joined);
    }
}

/// Joins keep a chain valid: where every scope of the chain lines up with
/// its schema and the rows of each joined table fit the schema that the
/// query holds for it, every scope of the joined chain lines up too.
pub proof fn theorem_joins_keep_chain_well_formed<K>(
    tables: Map<Seq<char>, TableModel<K>>,
    clauses: Seq<JoinClauseView>,
    join_columns: Seq<(TableView, Seq<ColumnView>)>,
    outer: Seq<ScopeView>,
    chain: Seq<ScopeView>,
    from: int,
)
    requires
        0 <= from,
        chain_well_formed(chain),
        forall|i: int|
            0 <= i < join_columns.len() && tables.contains_key((#[trigger] join_columns[i]).0.name)
                ==> rows_fit(tables[join_columns[i].0.name].rows, join_columns[i].1),
    ensures
        match join_all(tables, clauses, join_columns, outer, chain, from) {
            Ok(Some(joined)) => chain_well_formed(joined),
            _ => true,
        },
    decreases clauses.len() - from,
{
    if from < clauses.len() && from < join_columns.len() {
        let table = join_columns[from].0;
        let columns = join_columns[from].1;
        match join_row(tables, clauses[from], table, columns, outer, chain, join_columns) {
            Ok(Some(extended)) => {
                assert(chain_well_formed(extended)) by {
                    match clauses[from].constraint {
                        JoinConstraintView::On(on) => {
                            if can_scan(tables, table.name) {
                                lemma_first_match_fits(
                                    on,
                                    table,
                                    columns,
                                    tables[table.name].rows,
                                    chain,
                                    outer,
                                    join_columns,
                                );
                                match first_match(
                                    on,
                                    table,
                                    columns,
                                    tables[table.name].rows,
                                    chain,
                                    outer,
                                    join_columns,
                                ) {
                                    Ok(Some(entry)) => {
                                        let scope = entry_scope(table, columns, entry);
                                        assert(extended == seq![scope] + chain);
                                        assert forall|i: int| 0 <= i < extended.len() implies (
                                        #[trigger] extended[i]).well_formed() by {
                                            if i > 0 {
                                                assert(extended[i] == chain[i - 1]);
                                            }
                                        }
                                    },
                                    _ => {},
                                }
                            }
                        },
                        _ => {},
                    }
                }
                theorem_joins_keep_chain_well_formed(
                    tables,
                    clauses,
                    join_columns,
                    outer,
                    extended,
                    from + 1,
                );
            },
            _ => {},
        }
    }
}

} // verus!
