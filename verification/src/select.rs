//! The `SELECT` pipeline: schema resolution, the row source, and the
//! orchestrator that runs each driving row through joins, filter, limit gate
//! and projector.

use vstd::prelude::*;
use crate::blend::{project, Blend};
use crate::context::{outer_scopes, BlendContext, FilterContext, ScopeView};
use crate::data::{Row, ValueView};
use crate::error::SelectError;
use crate::filter::{admits, joined_view, BlendedFilter, Filter};
use crate::join::{entry_scope, join_all, join_clauses};
use crate::limit::{in_window, Limit};
use crate::statement::{
    join_columns_view, Column, ColumnView, JoinClauseView, JoinRightSide, JoinRightSideView,
    SelectStatement, SelectStatementView, Table, TableView,
};
use crate::storage::{can_scan, Store, TableModel};

verus! {

/// What a query needs to know of its tables before it pulls a row: the
/// driving table with its schema, and each joined table with its schema, in
/// clause order.
pub struct SelectParams<'a> {
    pub table: &'a Table,
    pub columns: Vec<Column>,
    pub join_columns: Vec<(&'a Table, Vec<Column>)>,
}

/// What [`SelectParams`] stand for.
pub struct SelectParamsView {
    pub table: TableView,
    pub columns: Seq<ColumnView>,
    pub join_columns: Seq<(TableView, Seq<ColumnView>)>,
}

impl<'a> View for SelectParams<'a> {
    type V = SelectParamsView;

    open spec fn view(&self) -> SelectParamsView {
        SelectParamsView {
            table: self.table@,
            columns: self.columns.deep_view(),
            join_columns: join_columns_view(self.join_columns@),
        }
    }
}

/// The joined tables of the first `count` clauses with their schemas. A
/// clause that joins anything but a single named table is unsupported; a
/// table that storage does not have is unavailable. The first clause that
/// fails decides the error.
pub open spec fn join_schemas<K>(
    tables: Map<Seq<char>, TableModel<K>>,
    clauses: Seq<JoinClauseView>,
    count: int,
) -> Result<Seq<(TableView, Seq<ColumnView>)>, SelectError>
    decreases count,
{
    if count <= 0 {
        Ok(Seq::empty())
    } else {
        match join_schemas(tables, clauses, count - 1) {
            Ok(before) => match clauses[count - 1].right {
                JoinRightSideView::Table(table) => if tables.contains_key(table.name) {
                    Ok(before.push((table, tables[table.name].columns)))
                } else {
                    Err(SelectError::StorageUnavailable)
                },
                _ => Err(SelectError::UnsupportedStatement),
            },
            Err(e) => Err(e),
        }
    }
}

/// The parameters of a statement over the given tables. The statement must
/// name exactly one table to drive the query.
pub open spec fn select_params<K>(
    tables: Map<Seq<char>, TableModel<K>>,
    statement: SelectStatementView,
) -> Result<SelectParamsView, SelectError> {
    if statement.tables.len() != 1 {
        Err(SelectError::UnsupportedStatement)
    } else if !tables.contains_key(statement.tables[0].name) {
        Err(SelectError::StorageUnavailable)
    } else {
        match join_schemas(tables, statement.join, statement.join.len() as int) {
            Ok(join_columns) => Ok(
                SelectParamsView {
                    table: statement.tables[0],
                    columns: tables[statement.tables[0].name].columns,
                    join_columns,
                },
            ),
            Err(e) => Err(e),
        }
    }
}

/// The view of the outcome of schema resolution.
pub open spec fn params_outcome_view(outcome: Result<SelectParams, SelectError>) -> Result<
    SelectParamsView,
    SelectError,
> {
    match outcome {
        Ok(params) => Ok(params@),
        Err(e) => Err(e),
    }
}

/// Once a prefix of the join clauses fails, every longer prefix fails with
/// the same error.
pub proof fn lemma_join_schemas_fail<K>(
    tables: Map<Seq<char>, TableModel<K>>,
    clauses: Seq<JoinClauseView>,
    failed: int,
    count: int,
)
    requires
        failed <= count,
        join_schemas(tables, clauses, failed) is Err,
    ensures
        join_schemas(tables, clauses, count) == join_schemas(tables, clauses, failed),
    decreases count - failed,
{
    if failed < count {
        lemma_join_schemas_fail(tables, clauses, failed, count - 1);
    }
}

/// The schema of `table` as storage has it.
pub fn fetch_columns<K, S: Store<K>>(storage: &S, table: &Table) -> (outcome: Result<
    Vec<Column>,
    SelectError,
>)
    ensures
        match outcome {
            Ok(columns) => {
                &&& storage.tables().contains_key(table@.name)
                &&& columns.deep_view() == storage.tables()[table@.name].columns
            },
            Err(e) => {
                &&& !storage.tables().contains_key(table@.name)
                &&& e == SelectError::StorageUnavailable
            },
        },
{
    storage.lookup_columns(&table.name)
}

/// Resolves the schemas that `statement` needs: that of its driving table and
/// that of every joined table.
pub fn fetch_select_params<'a, K, S: Store<K>>(storage: &'a S, statement: &'a SelectStatement) -> (outcome:
    Result<SelectParams<'a>, SelectError>)
    ensures
        params_outcome_view(outcome) == select_params(storage.tables(), statement@),
{
    if statement.tables.len() != 1 {
        return Err(SelectError::UnsupportedStatement);
    }
    let table = &statement.tables[0];
    assert(statement@.tables[0] == table@);
    let columns = match fetch_columns(storage, table) {
        Ok(columns) => columns,
        Err(e) => { return Err(e); },
    };
    let ghost clauses = statement@.join;
    let mut join_columns: Vec<(&'a Table, Vec<Column>)> = Vec::new();
    let mut i: usize = 0;
    assert(join_columns_view(join_columns@) =~= Seq::empty());
    while i < statement.join.len()
        invariant
            i <= statement.join.len(),
            clauses == statement@.join,
            statement@.tables.len() == 1,
            storage.tables().contains_key(statement@.tables[0].name),
            join_schemas(storage.tables(), clauses, i as int) == Ok::<
                Seq<(TableView, Seq<ColumnView>)>,
                SelectError,
            >(join_columns_view(join_columns@)),
        decreases statement.join.len() - i,
    {
        assert(clauses[i as int] == statement.join[i as int]@);
        let joined = match &statement.join[i].right {
            JoinRightSide::Table(joined) => joined,
            _ => {
                proof {
                    lemma_join_schemas_fail(storage.tables(), clauses, i + 1, clauses.len() as int);
                }
                return Err(SelectError::UnsupportedStatement);
            },
        };
        let joined_columns = match fetch_columns(storage, joined) {
            Ok(joined_columns) => joined_columns,
            Err(e) => {
                proof {
                    lemma_join_schemas_fail(storage.tables(), clauses, i + 1, clauses.len() as int);
                }
                return Err(e);
            },
        };
        let ghost before = join_columns_view(join_columns@);
        let ghost shown = joined_columns.deep_view();
        join_columns.push((joined, joined_columns));
        assert(join_columns_view(join_columns@) =~= before.push((joined@, shown)));
        i += 1;
    }
    Ok(SelectParams { table, columns, join_columns })
}

/// The stream of seed chains of a driving table: one single-scope chain per
/// stored row, in the order of the scan. Each call of `next_context` pulls
/// one row from storage; nothing is read ahead.
pub struct RowSource<'a, C> {
    pub table: &'a Table,
    pub columns: &'a Vec<Column>,
    pub scan: C,
}

impl<'a, C> RowSource<'a, C> {
    /// The seed chain of the next stored row, or nothing at the end of the
    /// table.
    pub fn next_context<K, S: Store<K, Scan = C>>(&mut self, storage: &S) -> (context: Option<
        BlendContext<'a, K>,
    >)
        ensures
            final(self).table == old(self).table,
            final(self).columns == old(self).columns,
            match context {
                Some(chain) => {
                    let pending = storage.pending(&old(self).scan);
                    &&& pending.len() > 0
                    &&& chain@ == seq![
                        entry_scope(old(self).table@, old(self).columns.deep_view(), pending[0]),
                    ]
                    &&& chain.keys() == seq![pending[0].0]
                    &&& storage.pending(&final(self).scan) == pending.drop_first()
                },
                None => {
                    &&& storage.pending(&old(self).scan).len() == 0
                    &&& storage.pending(&final(self).scan).len() == 0
                },
            },
    {
        match storage.next_row(&mut self.scan) {
            Some((key, row)) => Some(
                BlendContext { table: self.table, columns: self.columns, key, row, next: None },
            ),
            None => None,
        }
    }
}

/// Opens the row source of `table`: fails where storage does not know the
/// table or cannot read its rows.
pub fn fetch_blended<'a, K, S: Store<K>>(
    storage: &S,
    table: &'a Table,
    columns: &'a Vec<Column>,
) -> (outcome: Result<RowSource<'a, S::Scan>, SelectError>)
    ensures
        match outcome {
            Ok(source) => {
                &&& source.table == table
                &&& source.columns == columns
                &&& can_scan(storage.tables(), table@.name)
                &&& storage.pending(&source.scan) == storage.tables()[table@.name].rows
                &&& storage.pending(&source.scan).len() <= usize::MAX
            },
            Err(e) => {
                &&& !can_scan(storage.tables(), table@.name)
                &&& e == SelectError::StorageUnavailable
            },
        },
{
    match storage.scan_rows(&table.name) {
        Ok(scan) => Ok(RowSource { table, columns, scan }),
        Err(e) => Err(e),
    }
}

/// The seed chain of a driving row: the single scope of the driving table.
pub open spec fn seed_chain<K>(params: SelectParamsView, entry: (K, Seq<ValueView>)) -> Seq<
    ScopeView,
> {
    seq![entry_scope(params.table, params.columns, entry)]
}

/// The fate of one driving row: its seed chain goes through every join, and
/// only then does the `WHERE` predicate see the joined chain (in front of the
/// enclosing context). To the predicate, the columns of a joined table of
/// which the chain holds no row are `NULL`. The result is the admitted chain,
/// or nothing where a join dropped the row or the predicate rejected it.
pub open spec fn admitted_chain<K>(
    tables: Map<Seq<char>, TableModel<K>>,
    statement: SelectStatementView,
    params: SelectParamsView,
    outer: Seq<ScopeView>,
    seed: Seq<ScopeView>,
) -> Result<Option<Seq<ScopeView>>, SelectError> {
    match join_all(tables, statement.join, params.join_columns, outer, seed, 0) {
        Ok(Some(chain)) => match admits(
            statement.where_clause,
            chain + outer,
            params.join_columns,
        ) {
            Ok(true) => Ok(Some(chain)),
            Ok(false) => Ok(None),
            Err(e) => Err(e),
        },
        Ok(None) => Ok(None),
        Err(e) => Err(e),
    }
}

/// What one pull of the pipeline yields: an output row, the driving rows
/// that are left, and the number of rows admitted so far.
pub struct Pulled<K> {
    pub row: Seq<ValueView>,
    pub rest: Seq<(K, Seq<ValueView>)>,
    pub ordinal: nat,
}

/// The next output row of the pipeline over the driving rows `rows`, where
/// `ordinal` rows have been admitted before them. Driving rows are taken in
/// scan order until one comes out: a row that a join drops or the filter
/// rejects is passed over; an admitted row takes the next ordinal and is
/// projected only if the limit window lets that ordinal through. A row that
/// fails, in a join, in the filter or in the projection, fails the pull.
pub open spec fn next_output<K>(
    tables: Map<Seq<char>, TableModel<K>>,
    statement: SelectStatementView,
    params: SelectParamsView,
    outer: Seq<ScopeView>,
    rows: Seq<(K, Seq<ValueView>)>,
    ordinal: nat,
) -> Result<Option<Pulled<K>>, SelectError>
    decreases rows.len(),
{
    if rows.len() == 0 {
        Ok(None)
    } else {
        match admitted_chain(tables, statement, params, outer, seed_chain(params, rows[0])) {
            Ok(Some(chain)) => if in_window(statement.limit, ordinal) {
                match project(statement.fields, chain) {
                    Ok(row) => Ok(Some(Pulled { row, rest: rows.drop_first(), ordinal: ordinal + 1 })),
                    Err(e) => Err(e),
                }
            } else {
                next_output(tables, statement, params, outer, rows.drop_first(), ordinal + 1)
            },
            Ok(None) => next_output(tables, statement, params, outer, rows.drop_first(), ordinal),
            Err(e) => Err(e),
        }
    }
}

/// The output of the pipeline over the driving rows `rows`, where `ordinal`
/// rows have been admitted before them. Rows are taken in scan order. Each
/// admitted row takes the next ordinal; it is projected only if the limit
/// window lets that ordinal through. The first row that fails, in a join, in
/// the filter or in the projection, fails the query.
pub open spec fn run<K>(
    tables: Map<Seq<char>, TableModel<K>>,
    statement: SelectStatementView,
    params: SelectParamsView,
    outer: Seq<ScopeView>,
    rows: Seq<(K, Seq<ValueView>)>,
    ordinal: nat,
) -> Result<Seq<Seq<ValueView>>, SelectError>
    decreases rows.len(),
{
    if rows.len() == 0 {
        Ok(Seq::empty())
    } else {
        match admitted_chain(tables, statement, params, outer, seed_chain(params, rows[0])) {
            Ok(Some(chain)) => if in_window(statement.limit, ordinal) {
                match project(statement.fields, chain) {
                    Ok(row) => prepend(
                        seq![row],
                        run(tables, statement, params, outer, rows.drop_first(), ordinal + 1),
                    ),
                    Err(e) => Err(e),
                }
            } else {
                run(tables, statement, params, outer, rows.drop_first(), ordinal + 1)
            },
            Ok(None) => run(tables, statement, params, outer, rows.drop_first(), ordinal),
            Err(e) => Err(e),
        }
    }
}

/// The rows `done` put in front of what the rest of a run yields.
pub open spec fn prepend(
    done: Seq<Seq<ValueView>>,
    rest: Result<Seq<Seq<ValueView>>, SelectError>,
) -> Result<Seq<Seq<ValueView>>, SelectError> {
    match rest {
        Ok(rows) => Ok(done + rows),
        Err(e) => Err(e),
    }
}

/// The output rows of a query: the pipeline run over all rows of the
/// driving table, in scan order.
pub open spec fn select_rows<K>(
    tables: Map<Seq<char>, TableModel<K>>,
    statement: SelectStatementView,
    params: SelectParamsView,
    outer: Seq<ScopeView>,
) -> Result<Seq<Seq<ValueView>>, SelectError> {
    if can_scan(tables, params.table.name) {
        run(tables, statement, params, outer, tables[params.table.name].rows, 0)
    } else {
        Err(SelectError::StorageUnavailable)
    }
}

/// The view of the outcome of a query.
pub open spec fn rows_outcome_view(outcome: Result<Vec<Row>, SelectError>) -> Result<
    Seq<Seq<ValueView>>,
    SelectError,
> {
    match outcome {
        Ok(rows) => Ok(rows.deep_view()),
        Err(e) => Err(e),
    }
}

/// The whole output is what the pulls yield one after the other: the first
/// output row, then the output of the rows that the first pull left, and the
/// error of the first pull that fails. Each pull that yields a row uses up at
/// least one driving row.
pub proof fn lemma_run_by_pulls<K>(
    tables: Map<Seq<char>, TableModel<K>>,
    statement: SelectStatementView,
    params: SelectParamsView,
    outer: Seq<ScopeView>,
    rows: Seq<(K, Seq<ValueView>)>,
    ordinal: nat,
)
    ensures
        run(tables, statement, params, outer, rows, ordinal) == match next_output(
            tables,
            statement,
            params,
            outer,
            rows,
            ordinal,
        ) {
            Ok(Some(pulled)) => prepend(
                seq![pulled.row],
                run(tables, statement, params, outer, pulled.rest, pulled.ordinal),
            ),
            Ok(None) => Ok(Seq::empty()),
            Err(e) => Err(e),
        },
        match next_output(tables, statement, params, outer, rows, ordinal) {
            Ok(Some(pulled)) => pulled.rest.len() < rows.len(),
            _ => true,
        },
    decreases rows.len(),
{
    if rows.len() > 0 {
        lemma_run_by_pulls(tables, statement, params, outer, rows.drop_first(), ordinal);
        lemma_run_by_pulls(tables, statement, params, outer, rows.drop_first(), ordinal + 1);
    }
}

/// A query in progress: the pipeline as a lazy sequence of output rows. Each
/// call of `next_row` pulls driving rows from storage, one at a time, only
/// until one output row comes out; to stop pulling is to cancel the query.
/// After the end of the table, and after an error, nothing more comes.
pub struct SelectCursor<'a, C> {
    pub statement: &'a SelectStatement,
    pub params: &'a SelectParams<'a>,
    pub filter_context: Option<&'a FilterContext<'a>>,
    pub source: RowSource<'a, C>,
    pub ordinal: usize,
    pub done: bool,
}

impl<'a, C> SelectCursor<'a, C> {
    /// The driving rows that have yet to be pulled.
    pub open spec fn remaining<K, S: Store<K, Scan = C>>(&self, storage: &S) -> Seq<
        (K, Seq<ValueView>),
    > {
        if self.done {
            Seq::empty()
        } else {
            storage.pending(&self.source.scan)
        }
    }

    /// The cursor reads the driving table of its parameters, and the rows
    /// admitted so far and those still to come can be counted.
    pub open spec fn well_formed<K, S: Store<K, Scan = C>>(&self, storage: &S) -> bool {
        &&& self.source.table == self.params.table
        &&& self.source.columns == &self.params.columns
        &&& self.ordinal + self.remaining(storage).len() <= usize::MAX
    }

    /// What the next pull will yield.
    pub open spec fn upcoming<K, S: Store<K, Scan = C>>(&self, storage: &S) -> Result<
        Option<Pulled<K>>,
        SelectError,
    > {
        next_output(
            storage.tables(),
            self.statement@,
            self.params@,
            outer_scopes(self.filter_context),
            self.remaining(storage),
            self.ordinal as nat,
        )
    }

    /// Everything that the cursor has yet to yield, were it pulled to the
    /// end.
    pub open spec fn output<K, S: Store<K, Scan = C>>(&self, storage: &S) -> Result<
        Seq<Seq<ValueView>>,
        SelectError,
    > {
        run(
            storage.tables(),
            self.statement@,
            self.params@,
            outer_scopes(self.filter_context),
            self.remaining(storage),
            self.ordinal as nat,
        )
    }

    /// Starts a query at the first row of the driving table. Fails where
    /// storage cannot scan that table.
    pub fn open<K, S: Store<K, Scan = C>>(
        storage: &S,
        statement: &'a SelectStatement,
        params: &'a SelectParams<'a>,
        filter_context: Option<&'a FilterContext<'a>>,
    ) -> (outcome: Result<Self, SelectError>)
        ensures
            match outcome {
                Ok(cursor) => {
                    &&& cursor.well_formed(storage)
                    &&& cursor.statement == statement
                    &&& cursor.params == params
                    &&& cursor.filter_context == filter_context
                    &&& cursor.ordinal == 0
                    &&& can_scan(storage.tables(), params@.table.name)
                    &&& cursor.remaining(storage) == storage.tables()[params@.table.name].rows
                },
                Err(e) => {
                    &&& !can_scan(storage.tables(), params@.table.name)
                    &&& e == SelectError::StorageUnavailable
                },
            },
    {
        match fetch_blended(storage, params.table, &params.columns) {
            Ok(source) => Ok(
                SelectCursor { statement, params, filter_context, source, ordinal: 0, done: false },
            ),
            Err(e) => Err(e),
        }
    }

    /// Pulls the next output row: runs driving rows through the joins, the
    /// filter and the limit gate until one is let through, and projects it.
    pub fn next_row<K, S: Store<K, Scan = C>>(&mut self, storage: &'a S) -> (outcome: Result<
        Option<Row>,
        SelectError,
    >)
        requires
            old(self).well_formed(storage),
        ensures
            final(self).well_formed(storage),
            final(self).statement == old(self).statement,
            final(self).params == old(self).params,
            final(self).filter_context == old(self).filter_context,
            match outcome {
                Ok(Some(row)) => old(self).upcoming(storage) == Ok::<Option<Pulled<K>>, SelectError>(
                    Some(
                        Pulled {
                            row: row@,
                            rest: final(self).remaining(storage),
                            ordinal: final(self).ordinal as nat,
                        },
                    ),
                ),
                Ok(None) => {
                    &&& old(self).upcoming(storage) == Ok::<Option<Pulled<K>>, SelectError>(None)
                    &&& final(self).remaining(storage).len() == 0
                },
                Err(e) => {
                    &&& old(self).upcoming(storage) == Err::<Option<Pulled<K>>, SelectError>(e)
                    &&& final(self).remaining(storage).len() == 0
                },
            },
    {
        if self.done {
            return Ok(None);
        }
        let statement: &'a SelectStatement = self.statement;
        let params: &'a SelectParams<'a> = self.params;
        let filter_context: Option<&'a FilterContext<'a>> = self.filter_context;
        let blend = Blend::new(&statement.fields);
        let filter = Filter::new(
            statement.where_clause.as_ref(),
            filter_context,
            Some(&params.join_columns),
        );
        let limit = Limit::new(&statement.limit);
        let ghost outer = outer_scopes(filter_context);
        let ghost target = self.upcoming(storage);
        loop
            invariant
                !self.done,
                self.well_formed(storage),
                self.statement == statement,
                self.params == params,
                self.filter_context == filter_context,
                statement == old(self).statement,
                params == old(self).params,
                filter_context == old(self).filter_context,
                blend.fields == &statement.fields,
                filter.predicate() == statement@.where_clause,
                outer_scopes(filter.context) == outer,
                joined_view(filter.joined) == params@.join_columns,
                outer == outer_scopes(filter_context),
                forall|n: nat| #[trigger] limit.admits(n) == in_window(statement@.limit, n),
                target == old(self).upcoming(storage),
                next_output(
                    storage.tables(),
                    statement@,
                    params@,
                    outer,
                    storage.pending(&self.source.scan),
                    self.ordinal as nat,
                ) == target,
            decreases storage.pending(&self.source.scan).len(),
        {
            let init_context = match self.source.next_context(storage) {
                Some(init_context) => init_context,
                None => {
                    self.done = true;
                    return Ok(None);
                },
            };
            let joined = match join_clauses(
                storage,
                &statement.join,
                &params.join_columns,
                filter_context,
                init_context,
            ) {
                Ok(Some(joined)) => joined,
                Ok(None) => {
                    continue ;
                },
                Err(e) => {
                    self.done = true;
                    return Err(e);
                },
            };
            assert(Seq::<ScopeView>::empty() + joined@ + outer =~= joined@ + outer);
            match BlendedFilter::new(&filter, &joined).check(None) {
                Ok(true) => {},
                Ok(false) => {
                    continue ;
                },
                Err(e) => {
                    self.done = true;
                    return Err(e);
                },
            }
            let inside = limit.check(self.ordinal);
            self.ordinal += 1;
            if inside {
                match blend.apply(&joined) {
                    Ok(row) => {
                        return Ok(Some(row));
                    },
                    Err(e) => {
                        self.done = true;
                        return Err(e);
                    },
                }
            }
        }
    }
}

/// Runs a query to its end: every row of the driving table goes through the
/// joins, the filter, the limit gate and the projector, one row at a time
/// and in scan order, and the rows that come out are collected.
pub fn select<'a, K, S: Store<K>>(
    storage: &'a S,
    statement: &'a SelectStatement,
    params: &'a SelectParams<'a>,
    filter_context: Option<&'a FilterContext<'a>>,
) -> (outcome: Result<Vec<Row>, SelectError>)
    ensures
        rows_outcome_view(outcome) == select_rows(
            storage.tables(),
            statement@,
            params@,
            outer_scopes(filter_context),
        ),
{
    let mut cursor = match SelectCursor::open(storage, statement, params, filter_context) {
        Ok(cursor) => cursor,
        Err(e) => {
            return Err(e);
        },
    };
    let ghost target = select_rows(
        storage.tables(),
        statement@,
        params@,
        outer_scopes(filter_context),
    );
    let mut rows: Vec<Row> = Vec::new();
    assert(rows.deep_view() =~= Seq::<Seq<ValueView>>::empty());
    assert(forall|rest: Seq<Seq<ValueView>>| Seq::<Seq<ValueView>>::empty() + rest =~= rest);
    loop
        invariant
            cursor.well_formed(storage),
            cursor.statement == statement,
            cursor.params == params,
            cursor.filter_context == filter_context,
            target == select_rows(
                storage.tables(),
                statement@,
                params@,
                outer_scopes(filter_context),
            ),
            prepend(rows.deep_view(), cursor.output(storage)) == target,
        ensures
            target == Ok::<Seq<Seq<ValueView>>, SelectError>(rows.deep_view()),
        decreases cursor.remaining(storage).len(),
    {
        let ghost done = rows.deep_view();
        proof {
            lemma_run_by_pulls(
                storage.tables(),
                statement@,
                params@,
                outer_scopes(filter_context),
                cursor.remaining(storage),
                cursor.ordinal as nat,
            );
        }
        match cursor.next_row(storage) {
            Ok(Some(row)) => {
                let ghost shown = row@;
                rows.push(row);
                assert(rows.deep_view() =~= done + seq![shown]);
                assert(forall|more: Seq<Seq<ValueView>>|
                    done + (seq![shown] + more) =~= (done + seq![shown]) + more);
            },
            Ok(None) => {
                assert(done + Seq::<Seq<ValueView>>::empty() =~= done);
                break ;
            },
            Err(e) => {
                return Err(e);
            },
        }
    }
    Ok(rows)
}

} // verus!
