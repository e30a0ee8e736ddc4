//! Row contexts: the chain of table scopes that one candidate row gathers as
//! joins are applied, the read-only context of an enclosing query, and the
//! rule by which a column reference finds its value among them.

use vstd::prelude::*;
use crate::data::{Row, Value, ValueView};
use crate::statement::{Column, ColumnView, Table, TableView};

verus! {

/// One table's contribution to a row context: the table, its schema and one
/// of its rows.
pub struct ScopeView {
    pub table: TableView,
    pub columns: Seq<ColumnView>,
    pub row: Seq<ValueView>,
}

impl ScopeView {
    /// The schema and the row line up position by position.
    pub open spec fn well_formed(self) -> bool {
        self.columns.len() == self.row.len()
    }
}

/// Whether `table` goes by `name`, as its own name or as its alias.
pub open spec fn table_named(table: TableView, name: Seq<char>) -> bool {
    table.name == name || table.alias == Some(name)
}

/// Whether a reference with the given qualifier may be looked up in `table`:
/// an unqualified reference may be looked up anywhere.
pub open spec fn table_matches(table: TableView, qualifier: Option<Seq<char>>) -> bool {
    match qualifier {
        Some(name) => table_named(table, name),
        None => true,
    }
}

/// The first position at or after `from` at which `columns` declares `name`.
pub open spec fn column_position_from(columns: Seq<ColumnView>, name: Seq<char>, from: int) -> Option<
    int,
>
    decreases columns.len() - from,
{
    if from < 0 || from >= columns.len() {
        None
    } else if columns[from].name == name {
        Some(from)
    } else {
        column_position_from(columns, name, from + 1)
    }
}

/// The first position at which `columns` declares `name`.
pub open spec fn column_position(columns: Seq<ColumnView>, name: Seq<char>) -> Option<int> {
    column_position_from(columns, name, 0)
}

/// The value that `scope` gives to `target`: the scope's table must match the
/// reference's qualifier, the schema must declare the name, and the row must
/// reach that position.
pub open spec fn scope_lookup(scope: ScopeView, target: ColumnView) -> Option<ValueView> {
    if table_matches(scope.table, target.table) {
        match column_position(scope.columns, target.name) {
            Some(i) => if i < scope.row.len() {
                Some(scope.row[i])
            } else {
                None
            },
            None => None,
        }
    } else {
        None
    }
}

/// Column resolution: the value of `target` in the first of `scopes` that
/// gives it one. Scopes are listed innermost first, so the innermost scope
/// that declares a name wins.
pub open spec fn resolve(scopes: Seq<ScopeView>, target: ColumnView) -> Option<ValueView>
    decreases scopes.len(),
{
    if scopes.len() == 0 {
        None
    } else {
        match scope_lookup(scopes[0], target) {
            Some(v) => Some(v),
            None => resolve(scopes.drop_first(), target),
        }
    }
}

/// What `column_position_from` finds is the first declaration at or after
/// `from`, and it finds nothing only where there is none.
pub proof fn lemma_column_position_from(columns: Seq<ColumnView>, name: Seq<char>, from: int)
    requires
        0 <= from,
    ensures
        match column_position_from(columns, name, from) {
            Some(i) => {
                &&& from <= i < columns.len()
                &&& columns[i].name == name
                &&& forall|j: int| from <= j < i ==> columns[j].name != name
            },
            None => forall|j: int| from <= j < columns.len() ==> columns[j].name != name,
        },
    decreases columns.len() - from,
{
    if from < columns.len() && columns[from].name != name {
        lemma_column_position_from(columns, name, from + 1);
    }
}

/// Resolution over two lists of scopes laid end to end looks in the first
/// list and, only if that gives nothing, in the second.
pub proof fn lemma_resolve_concat(inner: Seq<ScopeView>, outer: Seq<ScopeView>, target: ColumnView)
    ensures
        resolve(inner + outer, target) == match resolve(inner, target) {
            Some(v) => Some(v),
            None => resolve(outer, target),
        },
    decreases inner.len(),
{
    if inner.len() == 0 {
        assert(inner + outer =~= outer);
    } else {
        assert((inner + outer)[0] == inner[0]);
        assert((inner + outer).drop_first() =~= inner.drop_first() + outer);
        lemma_resolve_concat(inner.drop_first(), outer, target);
    }
}

/// The context chain of one candidate row: the scope of the table joined
/// last, owning the link to the scope before it, back to the driving table.
pub struct BlendContext<'a, K> {
    pub table: &'a Table,
    pub columns: &'a Vec<Column>,
    pub key: K,
    pub row: Row,
    pub next: Option<Box<BlendContext<'a, K>>>,
}

impl<'a, K> BlendContext<'a, K> {
    /// The scope at the head of the chain.
    pub open spec fn scope(&self) -> ScopeView {
        ScopeView { table: self.table@, columns: self.columns.deep_view(), row: self.row@ }
    }

    /// The scopes along the chain, innermost first.
    pub open spec fn scopes(&self) -> Seq<ScopeView>
        decreases self,
    {
        match self.next {
            Some(outer) => seq![self.scope()] + outer.scopes(),
            None => seq![self.scope()],
        }
    }

    /// The row keys along the chain, innermost first.
    pub open spec fn keys(&self) -> Seq<K>
        decreases self,
    {
        match self.next {
            Some(outer) => seq![self.key] + outer.keys(),
            None => seq![self.key],
        }
    }
}

impl<'a, K> View for BlendContext<'a, K> {
    type V = Seq<ScopeView>;

    /// The scopes along the chain, innermost first.
    open spec fn view(&self) -> Seq<ScopeView> {
        self.scopes()
    }
}

/// The row context of an enclosing query, lent to a predicate for the time
/// of its evaluation.
pub struct FilterContext<'a> {
    pub table: &'a Table,
    pub columns: &'a Vec<Column>,
    pub row: &'a Row,
    pub next: Option<&'a FilterContext<'a>>,
}

impl<'a> FilterContext<'a> {
    /// The scope at the head of the context.
    pub open spec fn scope(&self) -> ScopeView {
        ScopeView { table: self.table@, columns: self.columns.deep_view(), row: self.row@ }
    }

    /// The scopes of the context, innermost first.
    pub open spec fn scopes(&self) -> Seq<ScopeView>
        decreases self,
    {
        match self.next {
            Some(outer) => seq![self.scope()] + outer.scopes(),
            None => seq![self.scope()],
        }
    }
}

impl<'a> View for FilterContext<'a> {
    type V = Seq<ScopeView>;

    /// The scopes of the context, innermost first.
    open spec fn view(&self) -> Seq<ScopeView> {
        self.scopes()
    }
}

/// The scopes of an optional enclosing context: none where there is no
/// enclosing query.
pub open spec fn outer_scopes(context: Option<&FilterContext>) -> Seq<ScopeView> {
    match context {
        Some(c) => c@,
        None => Seq::empty(),
    }
}

/// The view of the outcome of a lookup.
pub open spec fn found(value: Option<&Value>) -> Option<ValueView> {
    match value {
        Some(v) => Some(v@),
        None => None,
    }
}

/// Whether two strings hold the same characters.
pub fn same_text(a: &String, b: &String) -> (same: bool)
    ensures
        same == (a@ == b@),
{
    *a == *b
}

/// Whether `table` goes by `name`.
pub fn is_table_named(table: &Table, name: &String) -> (named: bool)
    ensures
        named == table_named(table@, name@),
{
    if same_text(&table.name, name) {
        true
    } else {
        match &table.alias {
            Some(alias) => same_text(alias, name),
            None => false,
        }
    }
}

/// The first position at which `columns` declares `name`.
pub fn find_column(columns: &Vec<Column>, name: &String) -> (position: Option<usize>)
    ensures
        match position {
            Some(i) => column_position(columns.deep_view(), name@) == Some(i as int),
            None => column_position(columns.deep_view(), name@) is None,
        },
{
    let mut i: usize = 0;
    while i < columns.len()
        invariant
            i <= columns.len(),
            column_position(columns.deep_view(), name@) == column_position_from(
                columns.deep_view(),
                name@,
                i as int,
            ),
        decreases columns.len() - i,
    {
        if same_text(&columns[i].name, name) {
            return Some(i);
        }
        i += 1;
    }
    None
}

/// The value that one scope gives to `target`.
pub fn lookup_in_scope<'r>(
    table: &Table,
    columns: &Vec<Column>,
    row: &'r Row,
    target: &Column,
) -> (value: Option<&'r Value>)
    ensures
        found(value) == scope_lookup(
            ScopeView { table: table@, columns: columns.deep_view(), row: row@ },
            target@,
        ),
{
    let qualified = match &target.table {
        Some(name) => is_table_named(table, name),
        None => true,
    };
    if !qualified {
        return None;
    }
    match find_column(columns, &target.name) {
        Some(i) => row.get_value(i),
        None => None,
    }
}

impl<'a, K> BlendContext<'a, K> {
    /// Resolves `target` along the chain, innermost scope first.
    pub fn get_value(&self, target: &Column) -> (value: Option<&Value>)
        ensures
            found(value) == resolve(self@, target@),
        decreases self,
    {
        assert(self@.len() > 0 && self@[0] == self.scope());
        match lookup_in_scope(self.table, self.columns, &self.row, target) {
            Some(v) => Some(v),
            None => {
                match &self.next {
                    Some(outer) => {
                        assert(self@.drop_first() =~= outer@);
                        outer.get_value(target)
                    },
                    None => {
                        assert(self@.drop_first() =~= Seq::<ScopeView>::empty());
                        assert(resolve(Seq::<ScopeView>::empty(), target@) is None);
                        None
                    },
                }
            },
        }
    }
}

impl<'a> FilterContext<'a> {
    /// Resolves `target` along the context, innermost scope first.
    pub fn get_value(&self, target: &Column) -> (value: Option<&'a Value>)
        ensures
            found(value) == resolve(self@, target@),
        decreases self,
    {
        assert(self@.len() > 0 && self@[0] == self.scope());
        match lookup_in_scope(self.table, self.columns, self.row, target) {
            Some(v) => Some(v),
            None => {
                match self.next {
                    Some(outer) => {
                        assert(self@.drop_first() =~= outer@);
                        outer.get_value(target)
                    },
                    None => {
                        assert(self@.drop_first() =~= Seq::<ScopeView>::empty());
                        assert(resolve(Seq::<ScopeView>::empty(), target@) is None);
                        None
                    },
                }
            },
        }
    }
}

} // verus!
