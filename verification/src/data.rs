//! Scalar values and rows, with their mathematical views.

use vstd::prelude::*;

verus! {

/// A scalar value held in a row or written as a literal in a query.
#[derive(Debug, PartialEq, Eq)]
pub enum Value {
    Null,
    Bool(bool),
    Integer(i64),
    Text(String),
}

/// What a [`Value`] stands for: text is its sequence of characters.
pub enum ValueView {
    Null,
    Bool(bool),
    Integer(i64),
    Text(Seq<char>),
}

impl View for Value {
    type V = ValueView;

    open spec fn view(&self) -> ValueView {
        match self {
            Value::Null => ValueView::Null,
            Value::Bool(b) => ValueView::Bool(*b),
            Value::Integer(i) => ValueView::Integer(*i),
            Value::Text(s) => ValueView::Text(s@),
        }
    }
}

impl DeepView for Value {
    type V = ValueView;

    open spec fn deep_view(&self) -> ValueView {
        self@
    }
}

impl Clone for Value {
    fn clone(&self) -> (copy: Value)
        ensures
            copy@ == self@,
    {
        match self {
            Value::Null => Value::Null,
            Value::Bool(b) => Value::Bool(*b),
            Value::Integer(i) => Value::Integer(*i),
            Value::Text(s) => Value::Text(s.clone()),
        }
    }
}

/// An ordered sequence of scalar values, as storage hands it out and as the
/// projector produces it.
#[derive(Debug, PartialEq, Eq)]
pub struct Row(pub Vec<Value>);

impl View for Row {
    type V = Seq<ValueView>;

    open spec fn view(&self) -> Seq<ValueView> {
        self.0.deep_view()
    }
}

impl DeepView for Row {
    type V = Seq<ValueView>;

    open spec fn deep_view(&self) -> Seq<ValueView> {
        self@
    }
}

impl Clone for Row {
    fn clone(&self) -> (copy: Row)
        ensures
            copy@ == self@,
    {
        let mut values: Vec<Value> = Vec::new();
        let mut i: usize = 0;
        while i < self.0.len()
            invariant
                i <= self.0.len(),
                values.len() == i,
                forall|j: int| 0 <= j < i ==> values[j]@ == self.0[j]@,
            decreases self.0.len() - i,
        {
            values.push(self.0[i].clone());
            i += 1;
        }
        let copy = Row(values);
        assert(copy@ =~= self@);
        copy
    }
}

impl Row {
    /// The number of values in the row.
    pub fn len(&self) -> (n: usize)
        ensures
            n == self@.len(),
    {
        self.0.len()
    }

    /// The value at `index`, if the row is that long.
    pub fn get_value(&self, index: usize) -> (value: Option<&Value>)
        ensures
            match value {
                Some(v) => index < self@.len() && v@ == self@[index as int],
                None => index >= self@.len(),
            },
    {
        if index < self.0.len() {
            Some(&self.0[index])
        } else {
            None
        }
    }
}

} // verus!
