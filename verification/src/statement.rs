//! The parsed form of a `SELECT` statement that the engine consumes, and the
//! view of each of its parts.

use vstd::prelude::*;
use crate::data::{Value, ValueView};

verus! {

/// A table named in a statement, with its optional alias.
#[derive(Debug)]
pub struct Table {
    pub name: String,
    pub alias: Option<String>,
}

/// What a [`Table`] stands for.
pub struct TableView {
    pub name: Seq<char>,
    pub alias: Option<Seq<char>>,
}

impl View for Table {
    type V = TableView;

    open spec fn view(&self) -> TableView {
        TableView { name: self.name@, alias: self.alias.deep_view() }
    }
}

impl DeepView for Table {
    type V = TableView;

    open spec fn deep_view(&self) -> TableView {
        self@
    }
}

/// A column: as a schema entry it declares `name`; as a reference in an
/// expression or an output field it may also carry the table (or alias) that
/// qualifies it.
#[derive(Debug)]
pub struct Column {
    pub name: String,
    pub table: Option<String>,
}

/// What a [`Column`] stands for.
pub struct ColumnView {
    pub name: Seq<char>,
    pub table: Option<Seq<char>>,
}

impl View for Column {
    type V = ColumnView;

    open spec fn view(&self) -> ColumnView {
        ColumnView { name: self.name@, table: self.table.deep_view() }
    }
}

impl DeepView for Column {
    type V = ColumnView;

    open spec fn deep_view(&self) -> ColumnView {
        self@
    }
}

impl Clone for Column {
    fn clone(&self) -> (copy: Column)
        ensures
            copy@ == self@,
    {
        Column {
            name: self.name.clone(),
            table: match &self.table {
                Some(t) => Some(t.clone()),
                None => None,
            },
        }
    }
}

/// The comparison operators of the expression language.
#[derive(Clone, Copy, Debug, PartialEq, Eq, Structural)]
pub enum CompareOp {
    Equal,
    NotEqual,
    Greater,
    GreaterOrEqual,
    Less,
    LessOrEqual,
}

/// An expression over the columns in scope: the language of `WHERE` and `ON`
/// predicates and of computed output fields.
#[derive(Debug)]
pub enum Expression {
    Literal(Value),
    Column(Column),
    Compare(CompareOp, Box<Expression>, Box<Expression>),
    And(Box<Expression>, Box<Expression>),
    Or(Box<Expression>, Box<Expression>),
    Not(Box<Expression>),
}

/// What an [`Expression`] stands for.
pub enum ExpressionView {
    Literal(ValueView),
    Column(ColumnView),
    Compare(CompareOp, Box<ExpressionView>, Box<ExpressionView>),
    And(Box<ExpressionView>, Box<ExpressionView>),
    Or(Box<ExpressionView>, Box<ExpressionView>),
    Not(Box<ExpressionView>),
}

impl View for Expression {
    type V = ExpressionView;

    open spec fn view(&self) -> ExpressionView
        decreases self,
    {
        match self {
            Expression::Literal(v) => ExpressionView::Literal(v@),
            Expression::Column(c) => ExpressionView::Column(c@),
            Expression::Compare(op, l, r) => ExpressionView::Compare(
                *op,
                Box::new((**l).view()),
                Box::new((**r).view()),
            ),
            Expression::And(l, r) => ExpressionView::And(
                Box::new((**l).view()),
                Box::new((**r).view()),
            ),
            Expression::Or(l, r) => ExpressionView::Or(
                Box::new((**l).view()),
                Box::new((**r).view()),
            ),
            Expression::Not(e) => ExpressionView::Not(Box::new((**e).view())),
        }
    }
}

impl DeepView for Expression {
    type V = ExpressionView;

    open spec fn deep_view(&self) -> ExpressionView {
        self@
    }
}

/// How a join treats a row for which the joined table holds no match.
#[derive(Clone, Copy, Debug, PartialEq, Eq, Structural)]
pub enum JoinOperator {
    Join,
    LeftJoin,
    LeftOuterJoin,
    InnerJoin,
    CrossJoin,
    StraightJoin,
}

/// What stands on the right of a join. Only a single named table can be
/// executed; the other shapes are recognised so that they can be refused.
#[derive(Debug)]
pub enum JoinRightSide {
    Table(Table),
    Tables(Vec<Table>),
    NestedSelect,
    NestedJoin,
}

/// What a [`JoinRightSide`] stands for.
pub enum JoinRightSideView {
    Table(TableView),
    Tables(Seq<TableView>),
    NestedSelect,
    NestedJoin,
}

impl View for JoinRightSide {
    type V = JoinRightSideView;

    open spec fn view(&self) -> JoinRightSideView {
        match self {
            JoinRightSide::Table(t) => JoinRightSideView::Table(t@),
            JoinRightSide::Tables(ts) => JoinRightSideView::Tables(ts.deep_view()),
            JoinRightSide::NestedSelect => JoinRightSideView::NestedSelect,
            JoinRightSide::NestedJoin => JoinRightSideView::NestedJoin,
        }
    }
}

/// The condition under which a candidate row joins. Only `ON <predicate>`
/// can be executed.
#[derive(Debug)]
pub enum JoinConstraint {
    On(Expression),
    Using(Vec<Column>),
}

/// What a [`JoinConstraint`] stands for.
pub enum JoinConstraintView {
    On(ExpressionView),
    Using(Seq<ColumnView>),
}

impl View for JoinConstraint {
    type V = JoinConstraintView;

    open spec fn view(&self) -> JoinConstraintView {
        match self {
            JoinConstraint::On(e) => JoinConstraintView::On(e@),
            JoinConstraint::Using(cs) => JoinConstraintView::Using(cs.deep_view()),
        }
    }
}

/// One join clause of a statement.
#[derive(Debug)]
pub struct JoinClause {
    pub operator: JoinOperator,
    pub right: JoinRightSide,
    pub constraint: JoinConstraint,
}

/// What a [`JoinClause`] stands for.
pub struct JoinClauseView {
    pub operator: JoinOperator,
    pub right: JoinRightSideView,
    pub constraint: JoinConstraintView,
}

impl View for JoinClause {
    type V = JoinClauseView;

    open spec fn view(&self) -> JoinClauseView {
        JoinClauseView {
            operator: self.operator,
            right: self.right@,
            constraint: self.constraint@,
        }
    }
}

impl DeepView for JoinClause {
    type V = JoinClauseView;

    open spec fn deep_view(&self) -> JoinClauseView {
        self@
    }
}

/// One entry of the output field list.
#[derive(Debug)]
pub enum FieldDefinition {
    /// `*`: every column of every scope.
    All,
    /// `t.*`: every column of the scope of table `t`.
    AllInTable(String),
    /// A column reference.
    Col(Column),
    /// A computed expression.
    Value(Expression),
}

/// What a [`FieldDefinition`] stands for.
pub enum FieldDefinitionView {
    All,
    AllInTable(Seq<char>),
    Col(ColumnView),
    Value(ExpressionView),
}

impl View for FieldDefinition {
    type V = FieldDefinitionView;

    open spec fn view(&self) -> FieldDefinitionView {
        match self {
            FieldDefinition::All => FieldDefinitionView::All,
            FieldDefinition::AllInTable(t) => FieldDefinitionView::AllInTable(t@),
            FieldDefinition::Col(c) => FieldDefinitionView::Col(c@),
            FieldDefinition::Value(e) => FieldDefinitionView::Value(e@),
        }
    }
}

impl DeepView for FieldDefinition {
    type V = FieldDefinitionView;

    open spec fn deep_view(&self) -> FieldDefinitionView {
        self@
    }
}

/// The result window of a statement: how many admitted rows to skip and how
/// many to let through. An absent part sets no bound.
#[derive(Clone, Copy, Debug, PartialEq, Eq, Structural)]
pub struct LimitClause {
    pub limit: Option<u64>,
    pub offset: Option<u64>,
}

/// A parsed `SELECT` statement.
#[derive(Debug)]
pub struct SelectStatement {
    pub tables: Vec<Table>,
    pub fields: Vec<FieldDefinition>,
    pub join: Vec<JoinClause>,
    pub where_clause: Option<Expression>,
    pub limit: Option<LimitClause>,
}

/// The view of a list of joined tables with their schemas.
pub open spec fn join_columns_view(join_columns: Seq<(&Table, Vec<Column>)>) -> Seq<
    (TableView, Seq<ColumnView>),
> {
    Seq::new(join_columns.len(), |i: int| (join_columns[i].0@, join_columns[i].1.deep_view()))
}

/// What a [`SelectStatement`] stands for.
pub struct SelectStatementView {
    pub tables: Seq<TableView>,
    pub fields: Seq<FieldDefinitionView>,
    pub join: Seq<JoinClauseView>,
    pub where_clause: Option<ExpressionView>,
    pub limit: Option<LimitClause>,
}

impl View for SelectStatement {
    type V = SelectStatementView;

    open spec fn view(&self) -> SelectStatementView {
        SelectStatementView {
            tables: self.tables.deep_view(),
            fields: self.fields.deep_view(),
            join: self.join.deep_view(),
            where_clause: self.where_clause.deep_view(),
            limit: self.limit,
        }
    }
}

} // verus!
