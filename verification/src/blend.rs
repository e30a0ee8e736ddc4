//! The projector: from a context chain and the output field list to one
//! output row.

use vstd::prelude::*;
use crate::context::{is_table_named, resolve, table_named, BlendContext, ScopeView};
use crate::data::{Row, Value, ValueView};
use crate::error::SelectError;
use crate::filter::{evaluate, evaluate_expression, Environment};
use crate::statement::{FieldDefinition, FieldDefinitionView};

verus! {

/// What `*` expands to: the rows of all scopes laid end to end, the driving
/// table's first and the scope joined last at the end. (`chain` lists its
/// scopes innermost first.)
pub open spec fn wildcard(chain: Seq<ScopeView>) -> Seq<ValueView>
    decreases chain.len(),
{
    if chain.len() == 0 {
        Seq::empty()
    } else {
        wildcard(chain.drop_first()) + chain[0].row
    }
}

/// What `name.*` expands to: the row of the innermost scope whose table goes
/// by `name`, or nothing where no scope does.
pub open spec fn table_wildcard(chain: Seq<ScopeView>, name: Seq<char>) -> Option<Seq<ValueView>>
    decreases chain.len(),
{
    if chain.len() == 0 {
        None
    } else if table_named(chain[0].table, name) {
        Some(chain[0].row)
    } else {
        table_wildcard(chain.drop_first(), name)
    }
}

/// The values that one output field contributes. Nothing stands in for a
/// missing column here: a reference that resolves to no scope is an error,
/// in a column field and in a computed field alike.
pub open spec fn project_field(field: FieldDefinitionView, chain: Seq<ScopeView>) -> Result<
    Seq<ValueView>,
    SelectError,
> {
    match field {
        FieldDefinitionView::All => Ok(wildcard(chain)),
        FieldDefinitionView::AllInTable(name) => match table_wildcard(chain, name) {
            Some(row) => Ok(row),
            None => Err(SelectError::ColumnNotFound),
        },
        FieldDefinitionView::Col(column) => match resolve(chain, column) {
            Some(v) => Ok(seq![v]),
            None => Err(SelectError::ColumnNotFound),
        },
        FieldDefinitionView::Value(expr) => match evaluate(expr, chain, Seq::empty()) {
            Ok(v) => Ok(seq![v]),
            Err(e) => Err(e),
        },
    }
}

/// The values that the first `count` output fields contribute, in field
/// order; the first field that fails decides the error.
pub open spec fn project_prefix(
    fields: Seq<FieldDefinitionView>,
    chain: Seq<ScopeView>,
    count: int,
) -> Result<Seq<ValueView>, SelectError>
    decreases count,
{
    if count <= 0 {
        Ok(Seq::empty())
    } else {
        match project_prefix(fields, chain, count - 1) {
            Ok(before) => match project_field(fields[count - 1], chain) {
                Ok(values) => Ok(before + values),
                Err(e) => Err(e),
            },
            Err(e) => Err(e),
        }
    }
}

/// The output row of a context chain under a field list.
pub open spec fn project(fields: Seq<FieldDefinitionView>, chain: Seq<ScopeView>) -> Result<
    Seq<ValueView>,
    SelectError,
> {
    project_prefix(fields, chain, fields.len() as int)
}

/// The view of a projection outcome.
pub open spec fn row_outcome_view(outcome: Result<Row, SelectError>) -> Result<
    Seq<ValueView>,
    SelectError,
> {
    match outcome {
        Ok(row) => Ok(row@),
        Err(e) => Err(e),
    }
}

/// Appends copies of the values of `row` to `values`.
fn append_row(values: &mut Vec<Value>, row: &Row)
    ensures
        final(values).deep_view() == old(values).deep_view() + row@,
{
    let mut i: usize = 0;
    while i < row.0.len()
        invariant
            i <= row.0.len(),
            values.deep_view() == old(values).deep_view() + row@.subrange(0, i as int),
        decreases row.0.len() - i,
    {
        let ghost before = values.deep_view();
        values.push(row.0[i].clone());
        assert(values.deep_view() =~= before.push(row@[i as int]));
        assert(row@.subrange(0, i + 1) =~= row@.subrange(0, i as int).push(row@[i as int]));
        assert(values.deep_view() =~= old(values).deep_view() + row@.subrange(0, i + 1));
        i += 1;
    }
    assert(row@.subrange(0, i as int) =~= row@);
}

/// Appends the whole chain to `values`, outermost scope first.
fn append_all<K>(values: &mut Vec<Value>, chain: &BlendContext<K>)
    ensures
        final(values).deep_view() == old(values).deep_view() + wildcard(chain@),
    decreases chain,
{
    assert(chain@.len() > 0 && chain@[0] == chain.scope());
    match &chain.next {
        Some(outer) => {
            assert(chain@.drop_first() =~= outer@);
            append_all(values, outer);
        },
        None => {
            assert(chain@.drop_first() =~= Seq::<ScopeView>::empty());
            assert(wildcard(Seq::<ScopeView>::empty()) =~= Seq::<ValueView>::empty());
        },
    }
    append_row(values, &chain.row);
    assert(values.deep_view() =~= old(values).deep_view() + wildcard(chain@));
}

/// The row of the innermost scope whose table goes by `name`.
fn find_table_row<'r, K>(chain: &'r BlendContext<K>, name: &String) -> (row: Option<&'r Row>)
    ensures
        match row {
            Some(r) => table_wildcard(chain@, name@) == Some(r@),
            None => table_wildcard(chain@, name@) is None,
        },
    decreases chain,
{
    assert(chain@.len() > 0 && chain@[0] == chain.scope());
    if is_table_named(chain.table, name) {
        Some(&chain.row)
    } else {
        match &chain.next {
            Some(outer) => {
                assert(chain@.drop_first() =~= outer@);
                find_table_row(outer, name)
            },
            None => {
                assert(chain@.drop_first() =~= Seq::<ScopeView>::empty());
                assert(table_wildcard(Seq::<ScopeView>::empty(), name@) is None);
                None
            },
        }
    }
}

/// The output field list of a query, ready to be applied to context chains.
pub struct Blend<'a> {
    pub fields: &'a Vec<FieldDefinition>,
}

impl<'a> Blend<'a> {
    pub fn new(fields: &'a Vec<FieldDefinition>) -> (blend: Self)
        ensures
            blend.fields == fields,
    {
        Blend { fields }
    }

    /// Projects `context` into one output row, field by field.
    pub fn apply<K>(&self, context: &BlendContext<K>) -> (outcome: Result<Row, SelectError>)
        ensures
            row_outcome_view(outcome) == project(self.fields.deep_view(), context@),
    {
        let ghost fields = self.fields.deep_view();
        let mut values: Vec<Value> = Vec::new();
        let mut i: usize = 0;
        assert(values.deep_view() =~= Seq::<ValueView>::empty());
        while i < self.fields.len()
            invariant
                i <= self.fields.len(),
                fields == self.fields.deep_view(),
                project_prefix(fields, context@, i as int) == Ok::<Seq<ValueView>, SelectError>(
                    values.deep_view(),
                ),
            decreases self.fields.len() - i,
        {
            let ghost before = values.deep_view();
            assert(fields[i as int] == self.fields[i as int]@);
            match &self.fields[i] {
                FieldDefinition::All => {
                    append_all(&mut values, context);
                },
                FieldDefinition::AllInTable(name) => {
                    match find_table_row(context, name) {
                        Some(row) => {
                            append_row(&mut values, row);
                        },
                        None => {
                            proof {
                                lemma_project_fails(fields, context@, i as int + 1, fields.len() as int);
                            }
                            return Err(SelectError::ColumnNotFound);
                        },
                    }
                },
                FieldDefinition::Col(column) => {
                    match context.get_value(column) {
                        Some(v) => {
                            values.push(v.clone());
                            assert(values.deep_view() =~= before + seq![v@]);
                        },
                        None => {
                            proof {
                                lemma_project_fails(fields, context@, i as int + 1, fields.len() as int);
                            }
                            return Err(SelectError::ColumnNotFound);
                        },
                    }
                },
                FieldDefinition::Value(expr) => {
                    let env = Environment {
                        item: None,
                        chain: Some(context),
                        outer: None,
                        joined: None,
                    };
                    assert(env.scopes() =~= context@);
                    match evaluate_expression(expr, &env) {
                        Ok(v) => {
                            let ghost shown = v@;
                            values.push(v);
                            assert(values.deep_view() =~= before + seq![shown]);
                        },
                        Err(e) => {
                            proof {
                                lemma_project_fails(fields, context@, i as int + 1, fields.len() as int);
                            }
                            return Err(e);
                        },
                    }
                },
            }
            i += 1;
        }
        Ok(Row(values))
    }
}

/// Once a prefix of the field list fails, every longer prefix fails with the
/// same error.
pub proof fn lemma_project_fails(
    fields: Seq<FieldDefinitionView>,
    chain: Seq<ScopeView>,
    failed: int,
    count: int,
)
    requires
        failed <= count,
        project_prefix(fields, chain, failed) is Err,
    ensures
        project_prefix(fields, chain, count) == project_prefix(fields, chain, failed),
    decreases count - failed,
{
    if failed < count {
        lemma_project_fails(fields, chain, failed, count - 1);
    }
}

} // verus!
