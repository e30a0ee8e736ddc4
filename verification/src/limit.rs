//! The limit gate: which admitted rows fall inside the result window.

use vstd::prelude::*;
use crate::statement::LimitClause;

verus! {

/// Whether the zero-based position `ordinal` lies at or after `offset` (zero
/// where there is none) and fewer than `count` beyond it (unbounded where
/// there is none).
pub open spec fn window(offset: Option<u64>, count: Option<u64>, ordinal: nat) -> bool {
    let start: int = match offset {
        Some(o) => o as int,
        None => 0,
    };
    &&& ordinal >= start
    &&& match count {
        Some(c) => ordinal < start + c,
        None => true,
    }
}

/// Whether the admitted row at the zero-based position `ordinal` falls
/// inside the window of a statement's limit clause. Without a clause every
/// position does.
pub open spec fn in_window(clause: Option<LimitClause>, ordinal: nat) -> bool {
    match clause {
        Some(c) => window(c.offset, c.limit, ordinal),
        None => true,
    }
}

/// The result window of a query, fixed before any row is pulled.
#[derive(Clone, Copy, Debug)]
pub struct Limit {
    pub offset: Option<u64>,
    pub count: Option<u64>,
}

impl Limit {
    /// Whether this window lets the admitted row at `ordinal` through.
    pub open spec fn admits(&self, ordinal: nat) -> bool {
        window(self.offset, self.count, ordinal)
    }

    pub fn new(limit_clause: &Option<LimitClause>) -> (limit: Self)
        ensures
            match *limit_clause {
                Some(c) => limit.offset == c.offset && limit.count == c.limit,
                None => limit.offset is None && limit.count is None,
            },
            forall|ordinal: nat| #[trigger] limit.admits(ordinal) == in_window(*limit_clause, ordinal),
    {
        match limit_clause {
            Some(c) => Limit { offset: c.offset, count: c.limit },
            None => Limit { offset: None, count: None },
        }
    }

    /// Whether the admitted row at position `ordinal` is let through.
    pub fn check(&self, ordinal: usize) -> (inside: bool)
        ensures
            inside == self.admits(ordinal as nat),
    {
        let n: u64 = ordinal as u64;
        let offset: u64 = match self.offset {
            Some(o) => o,
            None => 0,
        };
        if n < offset {
            false
        } else {
            match self.count {
                Some(count) => n - offset < count,
                None => true,
            }
        }
    }
}

} // verus!
