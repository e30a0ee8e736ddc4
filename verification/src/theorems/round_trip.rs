//! The round trip between `*` and qualified names: a query that lists every
//! column by its qualified name returns what the same query returns for `*`.

use vstd::prelude::*;
use crate::blend::{project, project_field, project_prefix, wildcard};
use crate::context::{table_named, ScopeView};
use crate::data::ValueView;
use crate::error::SelectError;
use crate::join::{join_all, join_row};
use crate::select::{
    admitted_chain, run, seed_chain, select_params, select_rows, SelectParamsView,
};
use crate::statement::{
    ColumnView, FieldDefinitionView, JoinClauseView, JoinOperator, SelectStatementView, TableView,
};
use crate::storage::{can_scan, rows_fit, tables_well_formed, TableModel};
use crate::theorems::joins::{chain_well_formed, theorem_joins_keep_chain_well_formed};
use crate::theorems::pipeline::lemma_join_schemas_from_storage;
use crate::theorems::resolution::{
    lemma_wildcard_holds_rows, theorem_wildcard_projects_whole_chain, theorem_wildcard_round_trip,
};

verus! {

/// The qualified references `table.column` to all columns of one table, in
/// schema order.
pub open spec fn table_fields(table: TableView, columns: Seq<ColumnView>) -> Seq<
    FieldDefinitionView,
> {
    Seq::new(
        columns.len(),
        |j: int| FieldDefinitionView::Col(ColumnView { name: columns[j].name, table: Some(table.name) }),
    )
}

/// The qualified references to all columns of a list of tables, table by
/// table.
pub open spec fn qualified_fields(schemas: Seq<(TableView, Seq<ColumnView>)>) -> Seq<
    FieldDefinitionView,
>
    decreases schemas.len(),
{
    if schemas.len() == 0 {
        Seq::empty()
    } else {
        qualified_fields(schemas.drop_last()) + table_fields(schemas.last().0, schemas.last().1)
    }
}

/// The tables of a chain with their schemas, the driving table first.
pub open spec fn chain_schemas(chain: Seq<ScopeView>) -> Seq<(TableView, Seq<ColumnView>)>
    decreases chain.len(),
{
    if chain.len() == 0 {
        Seq::empty()
    } else {
        chain_schemas(chain.drop_first()).push((chain[0].table, chain[0].columns))
    }
}

/// The tables of a query with their schemas: the driving table, then the
/// joined tables in clause order.
pub open spec fn all_schemas(params: SelectParamsView) -> Seq<(TableView, Seq<ColumnView>)> {
    seq![(params.table, params.columns)] + params.join_columns
}

/// Names tell tables and columns apart: no table goes by the name of
/// another, and no two columns of a table have the same name.
pub open spec fn names_tell_apart(schemas: Seq<(TableView, Seq<ColumnView>)>) -> bool {
    &&& forall|i: int, j: int|
        0 <= i < schemas.len() && 0 <= j < schemas.len() && i != j ==> !table_named(
            (#[trigger] schemas[i]).0,
            (#[trigger] schemas[j]).0.name,
        )
    &&& forall|i: int, a: int, b: int|
        0 <= i < schemas.len() && 0 <= a < b < schemas[i].1.len() ==> (
        #[trigger] schemas[i].1[a]).name != (#[trigger] schemas[i].1[b]).name
}

/// The schemas of a chain are those of its scopes in reverse.
pub proof fn lemma_chain_schemas_index(chain: Seq<ScopeView>, i: int)
    requires
        0 <= i < chain.len(),
    ensures
        chain_schemas(chain).len() == chain.len(),
        chain_schemas(chain)[chain.len() - 1 - i] == (chain[i].table, chain[i].columns),
    decreases chain.len(),
{
    let rest = chain.drop_first();
    lemma_chain_schemas_len(rest);
    if i > 0 {
        lemma_chain_schemas_index(rest, i - 1);
        assert(rest[i - 1] == chain[i]);
    }
}

/// A chain has one schema for each scope.
pub proof fn lemma_chain_schemas_len(chain: Seq<ScopeView>)
    ensures
        chain_schemas(chain).len() == chain.len(),
    decreases chain.len(),
{
    if chain.len() > 0 {
        lemma_chain_schemas_len(chain.drop_first());
    }
}

/// What the first `count` fields project to depends on those fields alone.
pub proof fn lemma_project_prefix_agrees(
    first: Seq<FieldDefinitionView>,
    second: Seq<FieldDefinitionView>,
    chain: Seq<ScopeView>,
    count: int,
)
    requires
        forall|i: int| 0 <= i < count ==> first[i] == second[i],
    ensures
        project_prefix(first, chain, count) == project_prefix(second, chain, count),
    decreases count,
{
    if count > 0 {
        lemma_project_prefix_agrees(first, second, chain, count - 1);
    }
}

/// The projection of two field lists laid end to end is the projection of
/// the first followed by that of the second.
pub proof fn lemma_project_concat(
    first: Seq<FieldDefinitionView>,
    second: Seq<FieldDefinitionView>,
    chain: Seq<ScopeView>,
    count: int,
)
    requires
        0 <= count <= second.len(),
        project(first, chain) is Ok,
        project_prefix(second, chain, count) is Ok,
    ensures
        project_prefix(first + second, chain, first.len() + count) == Ok::<
            Seq<ValueView>,
            SelectError,
        >(project(first, chain)->Ok_0 + project_prefix(second, chain, count)->Ok_0),
    decreases count,
{
    let both = first + second;
    if count == 0 {
        lemma_project_prefix_agrees(both, first, chain, first.len() as int);
        assert(project(first, chain)->Ok_0 + Seq::<ValueView>::empty() =~= project(first, chain)->Ok_0);
    } else {
        lemma_project_concat(first, second, chain, count - 1);
        assert(both[first.len() + count - 1] == second[count - 1]);
        let a = project(first, chain)->Ok_0;
        let b = project_prefix(second, chain, count - 1)->Ok_0;
        let c = project_field(second[count - 1], chain)->Ok_0;
        assert((a + b) + c =~= a + (b + c));
    }
}

/// The qualified references to all columns of the table of one scope
/// project to that scope's row, where names tell that scope and its columns
/// apart.
pub proof fn lemma_table_fields_project_row(chain: Seq<ScopeView>, s: int, count: int)
    requires
        0 <= s < chain.len(),
        chain[s].well_formed(),
        0 <= count <= chain[s].columns.len(),
        forall|i: int| 0 <= i < s ==> !table_named(#[trigger] chain[i].table, chain[s].table.name),
        forall|a: int, b: int|
            0 <= a < b < chain[s].columns.len() ==> (#[trigger] chain[s].columns[a]).name != (
            #[trigger] chain[s].columns[b]).name,
    ensures
        project_prefix(table_fields(chain[s].table, chain[s].columns), chain, count) == Ok::<
            Seq<ValueView>,
            SelectError,
        >(chain[s].row.subrange(0, count)),
    decreases count,
{
    let fields = table_fields(chain[s].table, chain[s].columns);
    if count == 0 {
        assert(chain[s].row.subrange(0, 0) =~= Seq::<ValueView>::empty());
    } else {
        let j = count - 1;
        lemma_table_fields_project_row(chain, s, j);
        theorem_wildcard_round_trip(chain, s, j);
        lemma_wildcard_holds_rows(chain, s, j);
        assert(chain[s].row.subrange(0, j) + seq![chain[s].row[j]] =~= chain[s].row.subrange(
            0,
            count,
        ));
    }
}

/// The qualified references to all columns of the scopes from position `k`
/// outward project to what `*` yields for those scopes.
pub proof fn lemma_qualified_fields_project_suffix(chain: Seq<ScopeView>, k: int)
    requires
        0 <= k <= chain.len(),
        chain_well_formed(chain),
        names_tell_apart(chain_schemas(chain)),
    ensures
        project(qualified_fields(chain_schemas(chain.skip(k))), chain) == Ok::<
            Seq<ValueView>,
            SelectError,
        >(wildcard(chain.skip(k))),
    decreases chain.len() - k,
{
    let part = chain.skip(k);
    if k == chain.len() {
        assert(part =~= Seq::<ScopeView>::empty());
        assert(chain_schemas(part) =~= Seq::<(TableView, Seq<ColumnView>)>::empty());
        assert(wildcard(part) =~= Seq::<ValueView>::empty());
    } else {
        lemma_qualified_fields_project_suffix(chain, k + 1);
        assert(part.drop_first() =~= chain.skip(k + 1));
        assert(part[0] == chain[k]);
        let inner = chain_schemas(chain.skip(k + 1));
        let schemas = chain_schemas(part);
        assert(schemas == inner.push((chain[k].table, chain[k].columns)));
        assert(schemas.drop_last() =~= inner);
        assert(schemas.last() == (chain[k].table, chain[k].columns));
        let first = qualified_fields(inner);
        let second = table_fields(chain[k].table, chain[k].columns);
        assert(qualified_fields(schemas) == first + second);
        let n = chain.len() as int;
        lemma_chain_schemas_index(chain, k);
        assert forall|i: int| 0 <= i < k implies !table_named(
            #[trigger] chain[i].table,
            chain[k].table.name,
        ) by {
            lemma_chain_schemas_index(chain, i);
            assert(chain_schemas(chain)[n - 1 - i].0 == chain[i].table);
            assert(chain_schemas(chain)[n - 1 - k].0 == chain[k].table);
        }
        assert forall|a: int, b: int| 0 <= a < b < chain[k].columns.len() implies (
        #[trigger] chain[k].columns[a]).name != (#[trigger] chain[k].columns[b]).name by {
            assert(chain_schemas(chain)[n - 1 - k].1 == chain[k].columns);
            assert(chain_schemas(chain)[n - 1 - k].1[a].name != chain_schemas(chain)[n - 1 - k].1[b].name);
        }
        assert(chain[k].well_formed());
        lemma_table_fields_project_row(chain, k, chain[k].columns.len() as int);
        assert(chain[k].row.subrange(0, chain[k].columns.len() as int) =~= chain[k].row);
        lemma_project_concat(first, second, chain, second.len() as int);
    }
}

/// Round trip on one chain: where names tell its tables and columns apart
/// and every row lines up with its schema, listing every column of every
/// table by its qualified name, the driving table first, projects the chain
/// to exactly what `*` projects it to.
pub proof fn theorem_qualified_fields_project_as_wildcard(chain: Seq<ScopeView>)
    requires
        chain_well_formed(chain),
        names_tell_apart(chain_schemas(chain)),
    ensures
        project(qualified_fields(chain_schemas(chain)), chain) == project(
            seq![FieldDefinitionView::All],
            chain,
        ),
{
    lemma_qualified_fields_project_suffix(chain, 0);
    assert(chain.skip(0) =~= chain);
    theorem_wildcard_projects_whole_chain(chain);
}

/// Every join clause is an inner join.
pub open spec fn all_inner(clauses: Seq<JoinClauseView>) -> bool {
    forall|i: int|
        0 <= i < clauses.len() ==> (#[trigger] clauses[i]).operator == JoinOperator::Join
            || clauses[i].operator == JoinOperator::InnerJoin
}

/// Under inner joins a chain that passes the joins holds a scope of every
/// joined table: its tables are those it had, followed by the joined tables
/// in clause order.
pub proof fn lemma_inner_joins_extend_chain<K>(
    tables: Map<Seq<char>, TableModel<K>>,
    clauses: Seq<JoinClauseView>,
    join_columns: Seq<(TableView, Seq<ColumnView>)>,
    outer: Seq<ScopeView>,
    chain: Seq<ScopeView>,
    from: int,
)
    requires
        all_inner(clauses),
        clauses.len() == join_columns.len(),
        0 <= from <= clauses.len(),
    ensures
        match join_all(tables, clauses, join_columns, outer, chain, from) {
            Ok(Some(joined)) => chain_schemas(joined) == chain_schemas(chain) + join_columns.subrange(
                from,
                join_columns.len() as int,
            ),
            _ => true,
        },
    decreases clauses.len() - from,
{
    let n = join_columns.len() as int;
    if from >= clauses.len() {
        assert(join_columns.subrange(from, n) =~= Seq::<(TableView, Seq<ColumnView>)>::empty());
        assert(chain_schemas(chain) + join_columns.subrange(from, n) =~= chain_schemas(chain));
    } else {
        let table = join_columns[from].0;
        let columns = join_columns[from].1;
        assert(clauses[from].operator == JoinOperator::Join || clauses[from].operator
            == JoinOperator::InnerJoin);
        match join_row(tables, clauses[from], table, columns, outer, chain, join_columns) {
            Ok(Some(extended)) => {
                assert(extended.len() > 0);
                assert(extended.drop_first() =~= chain);
                assert(extended[0].table == table && extended[0].columns == columns);
                assert(chain_schemas(extended) == chain_schemas(chain).push((table, columns)));
                lemma_inner_joins_extend_chain(
                    tables,
                    clauses,
                    join_columns,
                    outer,
                    extended,
                    from + 1,
                );
                assert(chain_schemas(chain).push((table, columns)) + join_columns.subrange(
                    from + 1,
                    n,
                ) =~= chain_schemas(chain) + join_columns.subrange(from, n));
            },
            _ => {},
        }
    }
}

/// What two queries have in common that differ in their field lists only:
/// one has `*`, the other every column of every table by its qualified
/// name, the driving table first and then the joined tables in clause order.
pub open spec fn same_but_for_fields(
    wild: SelectStatementView,
    named: SelectStatementView,
    params: SelectParamsView,
) -> bool {
    &&& wild.fields == seq![FieldDefinitionView::All]
    &&& named.fields == qualified_fields(all_schemas(params))
    &&& named.join == wild.join
    &&& named.where_clause == wild.where_clause
    &&& named.limit == wild.limit
}

/// The two queries yield the same rows over any driving rows that fit the
/// schema.
pub proof fn lemma_runs_agree<K>(
    tables: Map<Seq<char>, TableModel<K>>,
    wild: SelectStatementView,
    named: SelectStatementView,
    params: SelectParamsView,
    outer: Seq<ScopeView>,
    rows: Seq<(K, Seq<ValueView>)>,
    ordinal: nat,
)
    requires
        same_but_for_fields(wild, named, params),
        all_inner(wild.join),
        names_tell_apart(all_schemas(params)),
        wild.join.len() == params.join_columns.len(),
        rows_fit(rows, params.columns),
        forall|j: int|
            0 <= j < params.join_columns.len() && tables.contains_key(
                (#[trigger] params.join_columns[j]).0.name,
            ) ==> rows_fit(tables[params.join_columns[j].0.name].rows, params.join_columns[j].1),
    ensures
        run(tables, named, params, outer, rows, ordinal) == run(
            tables,
            wild,
            params,
            outer,
            rows,
            ordinal,
        ),
    decreases rows.len(),
{
    if rows.len() > 0 {
        let rest = rows.drop_first();
        assert forall|i: int| 0 <= i < rest.len() implies (#[trigger] rest[i]).1.len()
            == params.columns.len() by {
            assert(rest[i] == rows[i + 1]);
        }
        lemma_runs_agree(tables, wild, named, params, outer, rest, ordinal);
        lemma_runs_agree(tables, wild, named, params, outer, rest, ordinal + 1);
        let seed = seed_chain(params, rows[0]);
        assert(admitted_chain(tables, named, params, outer, seed) == admitted_chain(
            tables,
            wild,
            params,
            outer,
            seed,
        ));
        match join_all(tables, wild.join, params.join_columns, outer, seed, 0) {
            Ok(Some(chain)) => {
                assert(rows[0].1.len() == params.columns.len());
                assert(chain_well_formed(seed));
                theorem_joins_keep_chain_well_formed(
                    tables,
                    wild.join,
                    params.join_columns,
                    outer,
                    seed,
                    0,
                );
                lemma_inner_joins_extend_chain(
                    tables,
                    wild.join,
                    params.join_columns,
                    outer,
                    seed,
                    0,
                );
                assert(seed.drop_first() =~= Seq::<ScopeView>::empty());
                assert(chain_schemas(seed) =~= seq![(params.table, params.columns)]) by {
                    reveal_with_fuel(chain_schemas, 2);
                }
                assert(params.join_columns.subrange(0, params.join_columns.len() as int)
                    =~= params.join_columns);
                assert(chain_schemas(chain) == all_schemas(params));
                theorem_qualified_fields_project_as_wildcard(chain);
                assert(project(named.fields, chain) == project(wild.fields, chain));
            },
            _ => {},
        }
    }
}

/// Round trip over whole queries: take a query with the field list `*` and
/// the same query with every column of every table listed by its qualified
/// name, the driving table first and then the joined tables in clause order.
/// Where all joins are inner joins, names tell the tables and the columns of
/// each table apart, and the rows in storage line up with their schemas, the
/// two queries return the same rows in the same order, or fail alike.
pub proof fn theorem_qualified_names_round_trip<K>(
    tables: Map<Seq<char>, TableModel<K>>,
    wild: SelectStatementView,
    named: SelectStatementView,
    params: SelectParamsView,
    outer: Seq<ScopeView>,
)
    requires
        tables_well_formed(tables),
        select_params(tables, wild) == Ok::<SelectParamsView, SelectError>(params),
        same_but_for_fields(wild, named, params),
        all_inner(wild.join),
        names_tell_apart(all_schemas(params)),
    ensures
        select_rows(tables, named, params, outer) == select_rows(tables, wild, params, outer),
{
    lemma_join_schemas_from_storage(tables, wild.join, wild.join.len() as int);
    assert forall|j: int|
        0 <= j < params.join_columns.len() && tables.contains_key(
            (#[trigger] params.join_columns[j]).0.name,
        ) implies rows_fit(
        tables[params.join_columns[j].0.name].rows,
        params.join_columns[j].1,
    ) by {
        assert(tables[params.join_columns[j].0.name].well_formed());
    }
    if can_scan(tables, params.table.name) {
        assert(tables[params.table.name].well_formed());
        lemma_runs_agree(tables, wild, named, params, outer, tables[params.table.name].rows, 0);
    }
}

} // verus!
