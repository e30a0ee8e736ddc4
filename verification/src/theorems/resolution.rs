//! Column resolution and the wildcard: which scope a reference finds, and
//! where each value stands in what `*` puts out.

use vstd::prelude::*;
use crate::blend::{project, project_field, wildcard};
use crate::context::{
    column_position, lemma_column_position_from, resolve, scope_lookup, table_named, ScopeView,
};
use crate::data::ValueView;
use crate::error::SelectError;
use crate::filter::{admits, can_supply, evaluate};
use crate::statement::{
    ColumnView, CompareOp, ExpressionView, FieldDefinitionView, TableView,
};

verus! {

/// Scopes that give a reference nothing are passed over: resolution goes on
/// behind them.
pub proof fn lemma_resolve_skips(scopes: Seq<ScopeView>, target: ColumnView, k: int)
    requires
        0 <= k <= scopes.len(),
        forall|j: int| 0 <= j < k ==> scope_lookup(#[trigger] scopes[j], target) is None,
    ensures
        resolve(scopes, target) == resolve(scopes.skip(k), target),
    decreases k,
{
    if k > 0 {
        let rest = scopes.drop_first();
        assert forall|j: int| 0 <= j < k - 1 implies scope_lookup(#[trigger] rest[j], target) is None by {
            assert(rest[j] == scopes[j + 1]);
        }
        assert(scope_lookup(scopes[0], target) is None);
        lemma_resolve_skips(rest, target, k - 1);
        assert(rest.skip(k - 1) =~= scopes.skip(k));
    } else {
        assert(scopes.skip(0) =~= scopes);
    }
}

/// A reference takes its value from the innermost scope that gives it one:
/// where no scope before position `k` does and the scope at `k` does, that
/// scope's value is the result, whatever the scopes behind it hold.
pub proof fn theorem_innermost_scope_wins(scopes: Seq<ScopeView>, target: ColumnView, k: int)
    requires
        0 <= k < scopes.len(),
        forall|j: int| 0 <= j < k ==> scope_lookup(#[trigger] scopes[j], target) is None,
        scope_lookup(scopes[k], target) is Some,
    ensures
        resolve(scopes, target) == scope_lookup(scopes[k], target),
{
    lemma_resolve_skips(scopes, target, k);
    assert(scopes.skip(k)[0] == scopes[k]);
}

/// A qualified reference `qualifier.name` resolves in the innermost scope
/// whose table goes by `qualifier`, even where scopes further in declare a
/// column of the same name.
pub proof fn theorem_qualified_reference(
    scopes: Seq<ScopeView>,
    qualifier: Seq<char>,
    name: Seq<char>,
    k: int,
)
    requires
        0 <= k < scopes.len(),
        table_named(scopes[k].table, qualifier),
        forall|j: int| 0 <= j < k ==> !table_named(#[trigger] scopes[j].table, qualifier),
        scope_lookup(scopes[k], ColumnView { name, table: Some(qualifier) }) is Some,
    ensures
        resolve(scopes, ColumnView { name, table: Some(qualifier) }) == scope_lookup(
            scopes[k],
            ColumnView { name, table: Some(qualifier) },
        ),
{
    let target = ColumnView { name, table: Some(qualifier) };
    assert forall|j: int| 0 <= j < k implies scope_lookup(#[trigger] scopes[j], target) is None by {
        assert(!table_named(scopes[j].table, qualifier));
    }
    theorem_innermost_scope_wins(scopes, target, k);
}

/// A reference qualified by a name that no scope's table goes by resolves to
/// nothing, and as an output field it is not found.
pub proof fn theorem_absent_table_unresolved(
    scopes: Seq<ScopeView>,
    qualifier: Seq<char>,
    name: Seq<char>,
)
    requires
        forall|j: int| 0 <= j < scopes.len() ==> !table_named(#[trigger] scopes[j].table, qualifier),
    ensures
        resolve(scopes, ColumnView { name, table: Some(qualifier) }) is None,
        project_field(FieldDefinitionView::Col(ColumnView { name, table: Some(qualifier) }), scopes)
            == Err::<Seq<ValueView>, SelectError>(SelectError::ColumnNotFound),
{
    let target = ColumnView { name, table: Some(qualifier) };
    assert forall|j: int| 0 <= j < scopes.len() implies scope_lookup(#[trigger] scopes[j], target) is None by {
        assert(!table_named(scopes[j].table, qualifier));
    }
    lemma_resolve_skips(scopes, target, scopes.len() as int);
    assert(scopes.skip(scopes.len() as int) =~= Seq::<ScopeView>::empty());
    assert(resolve(Seq::<ScopeView>::empty(), target) is None);
}

/// To a predicate, a column of a table that the statement joins, but of
/// which the context holds no row, is `NULL`. A comparison with it is false
/// whatever stands on the other side, so long as that can be evaluated: the
/// predicate rejects the row, and the query goes on.
pub proof fn theorem_unmatched_table_is_null(
    scopes: Seq<ScopeView>,
    joined: Seq<(TableView, Seq<ColumnView>)>,
    qualifier: Seq<char>,
    name: Seq<char>,
    op: CompareOp,
    other: ExpressionView,
)
    requires
        forall|j: int| 0 <= j < scopes.len() ==> !table_named(#[trigger] scopes[j].table, qualifier),
        can_supply(joined, ColumnView { name, table: Some(qualifier) }),
        evaluate(other, scopes, joined) is Ok,
    ensures
        evaluate(
            ExpressionView::Column(ColumnView { name, table: Some(qualifier) }),
            scopes,
            joined,
        ) == Ok::<ValueView, SelectError>(ValueView::Null),
        admits(
            Some(
                ExpressionView::Compare(
                    op,
                    Box::new(ExpressionView::Column(ColumnView { name, table: Some(qualifier) })),
                    Box::new(other),
                ),
            ),
            scopes,
            joined,
        ) == Ok::<bool, SelectError>(false),
        admits(
            Some(
                ExpressionView::Compare(
                    op,
                    Box::new(other),
                    Box::new(ExpressionView::Column(ColumnView { name, table: Some(qualifier) })),
                ),
            ),
            scopes,
            joined,
        ) == Ok::<bool, SelectError>(false),
{
    let target = ColumnView { name, table: Some(qualifier) };
    theorem_absent_table_unresolved(scopes, qualifier, name);
    let column = ExpressionView::Column(target);
    assert(evaluate(column, scopes, joined) == Ok::<ValueView, SelectError>(ValueView::Null));
    let left = ExpressionView::Compare(op, Box::new(column), Box::new(other));
    let right = ExpressionView::Compare(op, Box::new(other), Box::new(column));
    assert(evaluate(left, scopes, joined) == Ok::<ValueView, SelectError>(ValueView::Bool(false))) by {
        reveal_with_fuel(evaluate, 2);
    }
    assert(evaluate(right, scopes, joined) == Ok::<ValueView, SelectError>(ValueView::Bool(false))) by {
        reveal_with_fuel(evaluate, 2);
    }
}

/// A reference that resolves to no scope and that no joined table could
/// supply is not found, to a predicate as to an output field.
pub proof fn theorem_unknown_column_not_found(
    scopes: Seq<ScopeView>,
    joined: Seq<(TableView, Seq<ColumnView>)>,
    target: ColumnView,
)
    requires
        resolve(scopes, target) is None,
        !can_supply(joined, target),
    ensures
        evaluate(ExpressionView::Column(target), scopes, joined) == Err::<ValueView, SelectError>(
            SelectError::ColumnNotFound,
        ),
        admits(Some(ExpressionView::Column(target)), scopes, joined) == Err::<bool, SelectError>(
            SelectError::ColumnNotFound,
        ),
        project_field(FieldDefinitionView::Col(target), scopes) == Err::<
            Seq<ValueView>,
            SelectError,
        >(SelectError::ColumnNotFound),
{
}

/// After a join found a match, a reference that the matched row's scope
/// gives a value resolves to that value: the joined row is the first thing
/// that a later predicate or field sees.
pub proof fn theorem_joined_row_visible(
    joined: ScopeView,
    chain: Seq<ScopeView>,
    outer: Seq<ScopeView>,
    target: ColumnView,
)
    requires
        scope_lookup(joined, target) is Some,
    ensures
        resolve(seq![joined] + chain + outer, target) == scope_lookup(joined, target),
{
    theorem_innermost_scope_wins(seq![joined] + chain + outer, target, 0);
}

/// On a chain of two scopes, `*` yields the driving table's row followed by
/// the joined table's row.
pub proof fn theorem_wildcard_order(driving: ScopeView, joined: ScopeView)
    ensures
        wildcard(seq![joined, driving]) == driving.row + joined.row,
{
    let chain = seq![joined, driving];
    let rest = chain.drop_first();
    assert(rest =~= seq![driving]);
    assert(rest.drop_first() =~= Seq::<ScopeView>::empty());
    assert(wildcard(Seq::<ScopeView>::empty()) =~= Seq::<ValueView>::empty());
    assert(wildcard(rest) =~= driving.row) by {
        reveal_with_fuel(wildcard, 2);
    }
    assert(wildcard(chain) =~= driving.row + joined.row);
}

/// The field list `*` alone projects a chain to exactly what `*` expands to.
pub proof fn theorem_wildcard_projects_whole_chain(chain: Seq<ScopeView>)
    ensures
        project(seq![FieldDefinitionView::All], chain) == Ok::<Seq<ValueView>, SelectError>(
            wildcard(chain),
        ),
{
    assert(Seq::<ValueView>::empty() + wildcard(chain) =~= wildcard(chain));
    assert(project(seq![FieldDefinitionView::All], chain) == Ok::<Seq<ValueView>, SelectError>(
        Seq::<ValueView>::empty() + wildcard(chain),
    )) by {
        reveal_with_fuel(crate::blend::project_prefix, 2);
    }
}

/// Where in the output of `*` the row of the scope at position `s` begins:
/// behind the rows of all scopes further out.
pub open spec fn wildcard_offset(chain: Seq<ScopeView>, s: int) -> int {
    wildcard(chain.skip(s + 1)).len() as int
}

/// The output of `*` holds the row of each scope, in one piece, at that
/// scope's offset.
pub proof fn lemma_wildcard_holds_rows(chain: Seq<ScopeView>, s: int, j: int)
    requires
        0 <= s < chain.len(),
        0 <= j < chain[s].row.len(),
    ensures
        wildcard_offset(chain, s) + j < wildcard(chain).len(),
        wildcard(chain)[wildcard_offset(chain, s) + j] == chain[s].row[j],
    decreases s,
{
    let rest = chain.drop_first();
    if s == 0 {
        assert(chain.skip(1) =~= rest);
    } else {
        assert(rest[s - 1] == chain[s]);
        assert(rest.skip(s) =~= chain.skip(s + 1));
        lemma_wildcard_holds_rows(rest, s - 1, j);
    }
}

/// Round trip: each value that `*` puts out for a column is the value that
/// the qualified reference `table.column` resolves to in the same chain.
///
/// This holds of a column that can be told apart by name: the scope's schema
/// and row line up, no scope further in goes by the same table name, and no
/// earlier column of the scope has the same name.
pub proof fn theorem_wildcard_round_trip(chain: Seq<ScopeView>, s: int, j: int)
    requires
        0 <= s < chain.len(),
        chain[s].well_formed(),
        0 <= j < chain[s].columns.len(),
        forall|i: int| 0 <= i < s ==> !table_named(#[trigger] chain[i].table, chain[s].table.name),
        forall|i: int| 0 <= i < j ==> (#[trigger] chain[s].columns[i]).name != chain[s].columns[j].name,
    ensures
        wildcard_offset(chain, s) + j < wildcard(chain).len(),
        resolve(
            chain,
            ColumnView { name: chain[s].columns[j].name, table: Some(chain[s].table.name) },
        ) == Some(wildcard(chain)[wildcard_offset(chain, s) + j]),
        project_field(
            FieldDefinitionView::Col(
                ColumnView { name: chain[s].columns[j].name, table: Some(chain[s].table.name) },
            ),
            chain,
        ) == Ok::<Seq<ValueView>, SelectError>(seq![wildcard(chain)[wildcard_offset(chain, s) + j]]),
{
    let scope = chain[s];
    let target = ColumnView { name: scope.columns[j].name, table: Some(scope.table.name) };
    lemma_wildcard_holds_rows(chain, s, j);
    lemma_column_position_from(scope.columns, target.name, 0);
    assert(column_position(scope.columns, target.name) == Some(j));
    assert(scope_lookup(scope, target) == Some(scope.row[j]));
    theorem_qualified_reference(chain, scope.table.name, scope.columns[j].name, s);
}

} // verus!
