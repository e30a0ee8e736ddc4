//! The pipeline as a whole: the order of its stages, what a query puts out
//! for each driving row, and the window that the limit cuts.

use vstd::prelude::*;
use crate::blend::{project, wildcard};
use crate::context::{table_named, ScopeView};
use crate::data::ValueView;
use crate::error::SelectError;
use crate::filter::{admits, can_supply, evaluate};
use crate::join::{candidate_outcome, entry_scope, join_all, join_row};
use crate::limit::in_window;
use crate::select::{
    admitted_chain, join_schemas, run, seed_chain, select_params, select_rows, SelectParamsView,
};
use crate::statement::{
    ColumnView, CompareOp, ExpressionView, FieldDefinitionView, JoinClauseView,
    JoinConstraintView, JoinOperator, JoinRightSideView, LimitClause, SelectStatementView,
    TableView,
};
use crate::storage::{can_scan, rows_fit, tables_well_formed, TableModel};
use crate::theorems::joins::{
    chain_well_formed, theorem_inner_join_drops_unmatched, theorem_join_takes_first_match,
    theorem_joins_keep_chain_well_formed, theorem_left_join_keeps_unmatched,
};
use crate::theorems::resolution::{
    theorem_unmatched_table_is_null, theorem_wildcard_order, theorem_wildcard_projects_whole_chain,
};

verus! {

/// The `WHERE` predicate is evaluated after all joins, on the chain that
/// they leave: a driving row whose seed chain the joins turn into `chain` is
/// admitted exactly if the predicate admits `chain` in front of the enclosing
/// context.
pub proof fn theorem_where_follows_joins<K>(
    tables: Map<Seq<char>, TableModel<K>>,
    statement: SelectStatementView,
    params: SelectParamsView,
    outer: Seq<ScopeView>,
    seed: Seq<ScopeView>,
    chain: Seq<ScopeView>,
)
    requires
        join_all(tables, statement.join, params.join_columns, outer, seed, 0) == Ok::<
            Option<Seq<ScopeView>>,
            SelectError,
        >(Some(chain)),
    ensures
        admitted_chain(tables, statement, params, outer, seed) == match admits(
            statement.where_clause,
            chain + outer,
            params.join_columns,
        ) {
            Ok(true) => Ok::<Option<Seq<ScopeView>>, SelectError>(Some(chain)),
            Ok(false) => Ok(None),
            Err(e) => Err(e),
        },
{
}

/// A `WHERE` predicate that compares a column of a joined table rejects a
/// driving row that passed the joins without a row of that table (an
/// unmatched left join): the row yields nothing, and nothing fails.
pub proof fn theorem_where_rejects_unmatched_row<K>(
    tables: Map<Seq<char>, TableModel<K>>,
    statement: SelectStatementView,
    params: SelectParamsView,
    outer: Seq<ScopeView>,
    seed: Seq<ScopeView>,
    chain: Seq<ScopeView>,
    qualifier: Seq<char>,
    name: Seq<char>,
    op: CompareOp,
    other: ExpressionView,
)
    requires
        join_all(tables, statement.join, params.join_columns, outer, seed, 0) == Ok::<
            Option<Seq<ScopeView>>,
            SelectError,
        >(Some(chain)),
        statement.where_clause == Some(
            ExpressionView::Compare(
                op,
                Box::new(ExpressionView::Column(ColumnView { name, table: Some(qualifier) })),
                Box::new(other),
            ),
        ),
        forall|j: int|
            0 <= j < (chain + outer).len() ==> !table_named(
                (#[trigger] (chain + outer)[j]).table,
                qualifier,
            ),
        can_supply(params.join_columns, ColumnView { name, table: Some(qualifier) }),
        evaluate(other, chain + outer, params.join_columns) is Ok,
    ensures
        admitted_chain(tables, statement, params, outer, seed) == Ok::<
            Option<Seq<ScopeView>>,
            SelectError,
        >(None),
{
    theorem_unmatched_table_is_null(chain + outer, params.join_columns, qualifier, name, op, other);
}

/// No driving row yields more than one output row.
pub proof fn theorem_one_row_per_driving_row<K>(
    tables: Map<Seq<char>, TableModel<K>>,
    statement: SelectStatementView,
    params: SelectParamsView,
    outer: Seq<ScopeView>,
    rows: Seq<(K, Seq<ValueView>)>,
    ordinal: nat,
)
    ensures
        match run(tables, statement, params, outer, rows, ordinal) {
            Ok(out) => out.len() <= rows.len(),
            Err(_) => true,
        },
    decreases rows.len(),
{
    if rows.len() > 0 {
        theorem_one_row_per_driving_row(tables, statement, params, outer, rows.drop_first(), ordinal);
        theorem_one_row_per_driving_row(
            tables,
            statement,
            params,
            outer,
            rows.drop_first(),
            ordinal + 1,
        );
    }
}

/// Without joins, filter and limit every driving row yields one output row,
/// in scan order: the projection of its own single scope. The query fails
/// only with the error of a row whose projection fails.
pub proof fn lemma_plain_run<K>(
    tables: Map<Seq<char>, TableModel<K>>,
    statement: SelectStatementView,
    params: SelectParamsView,
    outer: Seq<ScopeView>,
    rows: Seq<(K, Seq<ValueView>)>,
    ordinal: nat,
)
    requires
        statement.join.len() == 0,
        statement.where_clause is None,
        statement.limit is None,
    ensures
        match run(tables, statement, params, outer, rows, ordinal) {
            Ok(out) => {
                &&& out.len() == rows.len()
                &&& forall|i: int|
                    0 <= i < rows.len() ==> project(
                        statement.fields,
                        seed_chain(params, #[trigger] rows[i]),
                    ) == Ok::<Seq<ValueView>, SelectError>(out[i])
            },
            Err(e) => exists|i: int|
                0 <= i < rows.len() && project(statement.fields, seed_chain(params, #[trigger] rows[i]))
                    == Err::<Seq<ValueView>, SelectError>(e),
        },
    decreases rows.len(),
{
    if rows.len() > 0 {
        let rest = rows.drop_first();
        let seed = seed_chain(params, rows[0]);
        assert(join_all(tables, statement.join, params.join_columns, outer, seed, 0) == Ok::<
            Option<Seq<ScopeView>>,
            SelectError,
        >(Some(seed)));
        assert(admitted_chain(tables, statement, params, outer, seed) == Ok::<
            Option<Seq<ScopeView>>,
            SelectError,
        >(Some(seed)));
        assert(in_window(statement.limit, ordinal));
        lemma_plain_run(tables, statement, params, outer, rest, ordinal + 1);
        match project(statement.fields, seed) {
            Ok(row) => {
                match run(tables, statement, params, outer, rest, ordinal + 1) {
                    Ok(more) => {
                        let out = seq![row] + more;
                        assert(run(tables, statement, params, outer, rows, ordinal) == Ok::<
                            Seq<Seq<ValueView>>,
                            SelectError,
                        >(out));
                        assert forall|i: int| 0 <= i < rows.len() implies project(
                            statement.fields,
                            seed_chain(params, #[trigger] rows[i]),
                        ) == Ok::<Seq<ValueView>, SelectError>(out[i]) by {
                            if i > 0 {
                                assert(rows[i] == rest[i - 1]);
                                assert(out[i] == more[i - 1]);
                            }
                        }
                    },
                    Err(e) => {
                        let i = choose|i: int|
                            0 <= i < rest.len() && project(
                                statement.fields,
                                seed_chain(params, #[trigger] rest[i]),
                            ) == Err::<Seq<ValueView>, SelectError>(e);
                        assert(rows[i + 1] == rest[i]);
                    },
                }
            },
            Err(e) => {
                assert(project(statement.fields, seed_chain(params, rows[0])) == Err::<
                    Seq<ValueView>,
                    SelectError,
                >(e));
            },
        }
    }
}

/// Without joins, filter and limit, the output has one row for each row of
/// the driving table, in scan order: the projection of that row's single
/// scope. The query fails only where a row's projection fails, and then with
/// that row's error.
pub proof fn theorem_plain_scan_keeps_every_row<K>(
    tables: Map<Seq<char>, TableModel<K>>,
    statement: SelectStatementView,
    params: SelectParamsView,
    outer: Seq<ScopeView>,
)
    requires
        statement.join.len() == 0,
        statement.where_clause is None,
        statement.limit is None,
        can_scan(tables, params.table.name),
    ensures
        match select_rows(tables, statement, params, outer) {
            Ok(out) => {
                &&& out.len() == tables[params.table.name].rows.len()
                &&& forall|i: int|
                    0 <= i < out.len() ==> project(
                        statement.fields,
                        seed_chain(params, #[trigger] tables[params.table.name].rows[i]),
                    ) == Ok::<Seq<ValueView>, SelectError>(out[i])
            },
            Err(e) => exists|i: int|
                0 <= i < tables[params.table.name].rows.len() && project(
                    statement.fields,
                    seed_chain(params, #[trigger] tables[params.table.name].rows[i]),
                ) == Err::<Seq<ValueView>, SelectError>(e),
        },
{
    lemma_plain_run(tables, statement, params, outer, tables[params.table.name].rows, 0);
}

/// Without joins, filter and limit, `SELECT *` returns the rows of the
/// driving table as they are stored, in scan order.
pub proof fn theorem_plain_wildcard_returns_table<K>(
    tables: Map<Seq<char>, TableModel<K>>,
    statement: SelectStatementView,
    params: SelectParamsView,
    outer: Seq<ScopeView>,
)
    requires
        statement.join.len() == 0,
        statement.where_clause is None,
        statement.limit is None,
        statement.fields == seq![FieldDefinitionView::All],
        can_scan(tables, params.table.name),
    ensures
        match select_rows(tables, statement, params, outer) {
            Ok(out) => {
                &&& out.len() == tables[params.table.name].rows.len()
                &&& forall|i: int| 0 <= i < out.len() ==> #[trigger] out[i] == tables[params.table.name].rows[i].1
            },
            Err(_) => false,
        },
{
    let rows = tables[params.table.name].rows;
    theorem_plain_scan_keeps_every_row(tables, statement, params, outer);
    assert forall|i: int| 0 <= i < rows.len() implies project(
        statement.fields,
        seed_chain(params, #[trigger] rows[i]),
    ) == Ok::<Seq<ValueView>, SelectError>(rows[i].1) by {
        let seed = seed_chain(params, rows[i]);
        assert(seed.drop_first() =~= Seq::<ScopeView>::empty());
        assert(wildcard(seed) =~= rows[i].1) by {
            reveal_with_fuel(wildcard, 2);
        }
        theorem_wildcard_projects_whole_chain(seed);
    }
}

/// The chains of the driving rows that the joins and the filter admit, in
/// scan order, where no row fails in a join or in the filter.
pub open spec fn admitted_chains<K>(
    tables: Map<Seq<char>, TableModel<K>>,
    statement: SelectStatementView,
    params: SelectParamsView,
    outer: Seq<ScopeView>,
    rows: Seq<(K, Seq<ValueView>)>,
) -> Result<Seq<Seq<ScopeView>>, SelectError>
    decreases rows.len(),
{
    if rows.len() == 0 {
        Ok(Seq::empty())
    } else {
        match admitted_chain(tables, statement, params, outer, seed_chain(params, rows[0])) {
            Ok(Some(chain)) => match admitted_chains(
                tables,
                statement,
                params,
                outer,
                rows.drop_first(),
            ) {
                Ok(more) => Ok(seq![chain] + more),
                Err(e) => Err(e),
            },
            Ok(None) => admitted_chains(tables, statement, params, outer, rows.drop_first()),
            Err(e) => Err(e),
        }
    }
}

/// `x` brought into the range from 0 to `len`.
pub open spec fn clip(x: int, len: int) -> int {
    if x < 0 {
        0
    } else if x > len {
        len
    } else {
        x
    }
}

/// The offset of a limit clause: zero where there is none.
pub open spec fn offset_of(limit: Option<LimitClause>) -> int {
    match limit {
        Some(LimitClause { offset: Some(o), .. }) => o as int,
        _ => 0,
    }
}

/// Among `len` admitted rows, of which the first has the ordinal `ordinal`,
/// the position of the first one inside the window.
pub open spec fn window_start(limit: Option<LimitClause>, ordinal: int, len: int) -> int {
    clip(offset_of(limit) - ordinal, len)
}

/// Among `len` admitted rows, of which the first has the ordinal `ordinal`,
/// the position behind the last one inside the window.
pub open spec fn window_end(limit: Option<LimitClause>, ordinal: int, len: int) -> int {
    match limit {
        Some(LimitClause { limit: Some(count), .. }) => clip(
            offset_of(limit) + count - ordinal,
            len,
        ),
        _ => len,
    }
}

/// The output of a run is the window cut out of the admitted rows: the
/// projections of the admitted chains from `window_start` up to
/// `window_end`, in order.
pub proof fn lemma_run_is_window<K>(
    tables: Map<Seq<char>, TableModel<K>>,
    statement: SelectStatementView,
    params: SelectParamsView,
    outer: Seq<ScopeView>,
    rows: Seq<(K, Seq<ValueView>)>,
    ordinal: nat,
    chains: Seq<Seq<ScopeView>>,
)
    requires
        admitted_chains(tables, statement, params, outer, rows) == Ok::<
            Seq<Seq<ScopeView>>,
            SelectError,
        >(chains),
        forall|i: int|
            0 <= i < chains.len() && in_window(statement.limit, (ordinal + i) as nat) ==> project(
                statement.fields,
                #[trigger] chains[i],
            ) is Ok,
    ensures
        window_start(statement.limit, ordinal as int, chains.len() as int) <= window_end(
            statement.limit,
            ordinal as int,
            chains.len() as int,
        ),
        match run(tables, statement, params, outer, rows, ordinal) {
            Ok(out) => {
                let lo = window_start(statement.limit, ordinal as int, chains.len() as int);
                let hi = window_end(statement.limit, ordinal as int, chains.len() as int);
                &&& out.len() == hi - lo
                &&& forall|k: int|
                    0 <= k < hi - lo ==> project(statement.fields, chains[lo + k]) == Ok::<
                        Seq<ValueView>,
                        SelectError,
                    >(#[trigger] out[k])
            },
            Err(_) => false,
        },
    decreases rows.len(),
{
    let limit = statement.limit;
    let n = chains.len() as int;
    let lo = window_start(limit, ordinal as int, n);
    let hi = window_end(limit, ordinal as int, n);
    if rows.len() == 0 {
        assert(chains.len() == 0);
    } else {
        let rest = rows.drop_first();
        match admitted_chain(tables, statement, params, outer, seed_chain(params, rows[0])) {
            Ok(Some(chain)) => {
                let more = admitted_chains(tables, statement, params, outer, rest)->Ok_0;
                assert(chains == seq![chain] + more);
                assert(chains[0] == chain);
                assert forall|i: int|
                    0 <= i < more.len() && in_window(limit, (ordinal + 1 + i) as nat) implies project(
                    statement.fields,
                    #[trigger] more[i],
                ) is Ok by {
                    assert(chains[i + 1] == more[i]);
                    assert(in_window(limit, (ordinal + (i + 1)) as nat));
                }
                lemma_run_is_window(tables, statement, params, outer, rest, ordinal + 1, more);
                let lo2 = window_start(limit, ordinal as int + 1, n - 1);
                let hi2 = window_end(limit, ordinal as int + 1, n - 1);
                let tail = run(tables, statement, params, outer, rest, ordinal + 1)->Ok_0;
                if in_window(limit, ordinal) {
                    assert(in_window(limit, (ordinal + 0) as nat));
                    let row = project(statement.fields, chain)->Ok_0;
                    let out = seq![row] + tail;
                    assert(run(tables, statement, params, outer, rows, ordinal) == Ok::<
                        Seq<Seq<ValueView>>,
                        SelectError,
                    >(out));
                    assert(lo == 0 && lo2 == 0 && hi == hi2 + 1);
                    assert forall|k: int| 0 <= k < hi - lo implies project(
                        statement.fields,
                        chains[lo + k],
                    ) == Ok::<Seq<ValueView>, SelectError>(#[trigger] out[k]) by {
                        if k > 0 {
                            assert(out[k] == tail[k - 1]);
                            assert(chains[k] == more[lo2 + (k - 1)]);
                        }
                    }
                } else {
                    assert(run(tables, statement, params, outer, rows, ordinal) == Ok::<
                        Seq<Seq<ValueView>>,
                        SelectError,
                    >(tail));
                    if ordinal < offset_of(limit) {
                        assert(lo == lo2 + 1 && hi == hi2 + 1);
                    } else {
                        assert(lo == 0 && hi == 0 && lo2 == 0 && hi2 == 0);
                    }
                    assert forall|k: int| 0 <= k < hi - lo implies project(
                        statement.fields,
                        chains[lo + k],
                    ) == Ok::<Seq<ValueView>, SelectError>(#[trigger] tail[k]) by {
                        assert(chains[lo + k] == more[lo2 + k]);
                    }
                }
            },
            Ok(None) => {
                lemma_run_is_window(tables, statement, params, outer, rest, ordinal, chains);
            },
            Err(_) => {},
        }
    }
}

/// The limit window, over a whole query: where no row fails in a join or in
/// the filter, the output consists of the admitted rows from the offset on
/// (zero where there is none), as many as the limit allows (all where there
/// is none), each projected, in the order in which they were admitted.
pub proof fn theorem_limit_cuts_window<K>(
    tables: Map<Seq<char>, TableModel<K>>,
    statement: SelectStatementView,
    params: SelectParamsView,
    outer: Seq<ScopeView>,
    chains: Seq<Seq<ScopeView>>,
)
    requires
        can_scan(tables, params.table.name),
        admitted_chains(tables, statement, params, outer, tables[params.table.name].rows) == Ok::<
            Seq<Seq<ScopeView>>,
            SelectError,
        >(chains),
        forall|i: int|
            0 <= i < chains.len() && in_window(statement.limit, i as nat) ==> project(
                statement.fields,
                #[trigger] chains[i],
            ) is Ok,
    ensures
        match select_rows(tables, statement, params, outer) {
            Ok(out) => {
                let lo = clip(offset_of(statement.limit), chains.len() as int);
                let hi = window_end(statement.limit, 0, chains.len() as int);
                &&& lo <= hi
                &&& out.len() == hi - lo
                &&& forall|k: int|
                    0 <= k < hi - lo ==> project(statement.fields, chains[lo + k]) == Ok::<
                        Seq<ValueView>,
                        SelectError,
                    >(#[trigger] out[k])
            },
            Err(_) => false,
        },
{
    assert forall|i: int|
        0 <= i < chains.len() && in_window(statement.limit, (0nat + i) as nat) implies project(
        statement.fields,
        #[trigger] chains[i],
    ) is Ok by {
        assert(in_window(statement.limit, i as nat));
    }
    lemma_run_is_window(
        tables,
        statement,
        params,
        outer,
        tables[params.table.name].rows,
        0,
        chains,
    );
}

/// A query with one join clause, no filter, no limit and the field list `*`.
pub open spec fn single_join_query(
    statement: SelectStatementView,
    params: SelectParamsView,
    clause: JoinClauseView,
    on: ExpressionView,
    table: TableView,
    columns: Seq<ColumnView>,
) -> bool {
    &&& statement.join == seq![clause]
    &&& params.join_columns == seq![(table, columns)]
    &&& statement.where_clause is None
    &&& statement.limit is None
    &&& statement.fields == seq![FieldDefinitionView::All]
    &&& clause.constraint == JoinConstraintView::On(on)
}

/// What a single-join query makes of one driving row, given what the join
/// makes of its seed chain.
proof fn lemma_single_join_run<K>(
    tables: Map<Seq<char>, TableModel<K>>,
    statement: SelectStatementView,
    params: SelectParamsView,
    outer: Seq<ScopeView>,
    clause: JoinClauseView,
    on: ExpressionView,
    table: TableView,
    columns: Seq<ColumnView>,
    driving: (K, Seq<ValueView>),
    ordinal: nat,
)
    requires
        single_join_query(statement, params, clause, on, table, columns),
    ensures
        run(tables, statement, params, outer, seq![driving], ordinal) == match join_row(
            tables,
            clause,
            table,
            columns,
            outer,
            seed_chain(params, driving),
            params.join_columns,
        ) {
            Ok(Some(chain)) => Ok::<Seq<Seq<ValueView>>, SelectError>(seq![wildcard(chain)]),
            Ok(None) => Ok(Seq::empty()),
            Err(e) => Err(e),
        },
{
    let rows = seq![driving];
    let seed = seed_chain(params, driving);
    assert(rows[0] == driving);
    assert(rows.drop_first() =~= Seq::<(K, Seq<ValueView>)>::empty());
    assert(join_all(tables, statement.join, params.join_columns, outer, seed, 0) == join_row(
        tables,
        clause,
        table,
        columns,
        outer,
        seed,
        params.join_columns,
    )) by {
        reveal_with_fuel(join_all, 2);
    }
    assert(in_window(statement.limit, ordinal));
    match join_row(tables, clause, table, columns, outer, seed, params.join_columns) {
        Ok(Some(chain)) => {
            theorem_wildcard_projects_whole_chain(chain);
            assert(seq![wildcard(chain)] + Seq::<Seq<ValueView>>::empty() =~= seq![wildcard(chain)]);
            assert(run(tables, statement, params, outer, rows, ordinal) == Ok::<
                Seq<Seq<ValueView>>,
                SelectError,
            >(seq![wildcard(chain)])) by {
                reveal_with_fuel(run, 2);
            }
        },
        Ok(None) => {
            assert(run(tables, statement, params, outer, rows, ordinal) == Ok::<
                Seq<Seq<ValueView>>,
                SelectError,
            >(Seq::empty())) by {
                reveal_with_fuel(run, 2);
            }
        },
        Err(_) => {},
    }
}

/// A driving row with a match in the joined table yields exactly one output
/// row under `*`: its own values followed by those of the first match in
/// scan order, whether one joined row matches or several do.
pub proof fn theorem_matched_row_yields_one_combined_row<K>(
    tables: Map<Seq<char>, TableModel<K>>,
    statement: SelectStatementView,
    params: SelectParamsView,
    outer: Seq<ScopeView>,
    clause: JoinClauseView,
    on: ExpressionView,
    table: TableView,
    columns: Seq<ColumnView>,
    driving: (K, Seq<ValueView>),
    m: int,
    ordinal: nat,
)
    requires
        single_join_query(statement, params, clause, on, table, columns),
        can_scan(tables, table.name),
        0 <= m < tables[table.name].rows.len(),
        candidate_outcome(
            on,
            table,
            columns,
            tables[table.name].rows[m],
            seed_chain(params, driving),
            outer,
            params.join_columns,
        ) == Ok::<bool, SelectError>(true),
        forall|j: int|
            0 <= j < m ==> candidate_outcome(
                on,
                table,
                columns,
                #[trigger] tables[table.name].rows[j],
                seed_chain(params, driving),
                outer,
                params.join_columns,
            ) == Ok::<bool, SelectError>(false),
    ensures
        run(tables, statement, params, outer, seq![driving], ordinal) == Ok::<
            Seq<Seq<ValueView>>,
            SelectError,
        >(seq![driving.1 + tables[table.name].rows[m].1]),
{
    let seed = seed_chain(params, driving);
    let matched = tables[table.name].rows[m];
    lemma_single_join_run(tables, statement, params, outer, clause, on, table, columns, driving, ordinal);
    theorem_join_takes_first_match(tables, clause, on, table, columns, outer, seed, m, params.join_columns);
    theorem_wildcard_order(
        entry_scope(params.table, params.columns, driving),
        entry_scope(table, columns, matched),
    );
    assert(seq![entry_scope(table, columns, matched)] + seed =~= seq![
        entry_scope(table, columns, matched),
        entry_scope(params.table, params.columns, driving),
    ]);
}

/// Under an inner join, a driving row without a match yields no output row.
pub proof fn theorem_unmatched_row_yields_nothing_under_inner_join<K>(
    tables: Map<Seq<char>, TableModel<K>>,
    statement: SelectStatementView,
    params: SelectParamsView,
    outer: Seq<ScopeView>,
    clause: JoinClauseView,
    on: ExpressionView,
    table: TableView,
    columns: Seq<ColumnView>,
    driving: (K, Seq<ValueView>),
    ordinal: nat,
)
    requires
        single_join_query(statement, params, clause, on, table, columns),
        clause.operator == JoinOperator::Join || clause.operator == JoinOperator::InnerJoin,
        can_scan(tables, table.name),
        forall|j: int|
            0 <= j < tables[table.name].rows.len() ==> candidate_outcome(
                on,
                table,
                columns,
                #[trigger] tables[table.name].rows[j],
                seed_chain(params, driving),
                outer,
                params.join_columns,
            ) == Ok::<bool, SelectError>(false),
    ensures
        run(tables, statement, params, outer, seq![driving], ordinal) == Ok::<
            Seq<Seq<ValueView>>,
            SelectError,
        >(Seq::empty()),
{
    lemma_single_join_run(tables, statement, params, outer, clause, on, table, columns, driving, ordinal);
    theorem_inner_join_drops_unmatched(
        tables,
        clause,
        on,
        table,
        columns,
        outer,
        seed_chain(params, driving),
        params.join_columns,
    );
}

/// Under a left join, a driving row without a match yields exactly one
/// output row under `*`: its own values, with nothing of the joined table.
pub proof fn theorem_unmatched_row_yields_itself_under_left_join<K>(
    tables: Map<Seq<char>, TableModel<K>>,
    statement: SelectStatementView,
    params: SelectParamsView,
    outer: Seq<ScopeView>,
    clause: JoinClauseView,
    on: ExpressionView,
    table: TableView,
    columns: Seq<ColumnView>,
    driving: (K, Seq<ValueView>),
    ordinal: nat,
)
    requires
        single_join_query(statement, params, clause, on, table, columns),
        clause.operator == JoinOperator::LeftJoin || clause.operator == JoinOperator::LeftOuterJoin,
        can_scan(tables, table.name),
        forall|j: int|
            0 <= j < tables[table.name].rows.len() ==> candidate_outcome(
                on,
                table,
                columns,
                #[trigger] tables[table.name].rows[j],
                seed_chain(params, driving),
                outer,
                params.join_columns,
            ) == Ok::<bool, SelectError>(false),
    ensures
        run(tables, statement, params, outer, seq![driving], ordinal) == Ok::<
            Seq<Seq<ValueView>>,
            SelectError,
        >(seq![driving.1]),
{
    let seed = seed_chain(params, driving);
    lemma_single_join_run(tables, statement, params, outer, clause, on, table, columns, driving, ordinal);
    theorem_left_join_keeps_unmatched(tables, clause, on, table, columns, outer, seed, params.join_columns);
    assert(seed.drop_first() =~= Seq::<ScopeView>::empty());
    assert(wildcard(seed) =~= driving.1) by {
        reveal_with_fuel(wildcard, 2);
    }
}

/// The schemas that schema resolution yields are the ones that storage
/// holds for the joined tables, one for each clause.
pub proof fn lemma_join_schemas_from_storage<K>(
    tables: Map<Seq<char>, TableModel<K>>,
    clauses: Seq<JoinClauseView>,
    count: int,
)
    requires
        0 <= count,
    ensures
        match join_schemas(tables, clauses, count) {
            Ok(schemas) => {
                &&& schemas.len() == count
                &&& forall|i: int|
                    0 <= i < count ==> {
                        &&& tables.contains_key((#[trigger] schemas[i]).0.name)
                        &&& schemas[i].1 == tables[schemas[i].0.name].columns
                        &&& clauses[i].right == JoinRightSideView::Table(schemas[i].0)
                    }
            },
            Err(_) => true,
        },
    decreases count,
{
    if count > 0 {
        lemma_join_schemas_from_storage(tables, clauses, count - 1);
    }
}

/// Validity of contexts: over a store whose rows line up with their schemas,
/// and with the parameters that schema resolution yields for the statement,
/// every chain that reaches the filter and the projector is valid: in each
/// of its scopes the row lines up with the schema.
pub proof fn theorem_admitted_chains_are_well_formed<K>(
    tables: Map<Seq<char>, TableModel<K>>,
    statement: SelectStatementView,
    params: SelectParamsView,
    outer: Seq<ScopeView>,
    i: int,
)
    requires
        tables_well_formed(tables),
        select_params(tables, statement) == Ok::<SelectParamsView, SelectError>(params),
        0 <= i < tables[params.table.name].rows.len(),
    ensures
        match admitted_chain(
            tables,
            statement,
            params,
            outer,
            seed_chain(params, tables[params.table.name].rows[i]),
        ) {
            Ok(Some(chain)) => chain_well_formed(chain),
            _ => true,
        },
{
    let driving = tables[params.table.name];
    let seed = seed_chain(params, driving.rows[i]);
    assert(driving.well_formed());
    assert(driving.rows[i].1.len() == params.columns.len());
    assert(chain_well_formed(seed));
    lemma_join_schemas_from_storage(tables, statement.join, statement.join.len() as int);
    assert forall|j: int|
        0 <= j < params.join_columns.len() && tables.contains_key(
            (#[trigger] params.join_columns[j]).0.name,
        ) implies rows_fit(
        tables[params.join_columns[j].0.name].rows,
        params.join_columns[j].1,
    ) by {
        assert(tables[params.join_columns[j].0.name].well_formed());
    }
    theorem_joins_keep_chain_well_formed(
        tables,
        statement.join,
        params.join_columns,
        outer,
        seed,
        0,
    );
}

} // verus!
