use vstd::prelude::*;

verus! {

/// Kind of aggregate functions.
#[derive(Debug, Clone, Copy, PartialEq, Eq, Hash, Structural)]
pub enum AggKind {
    Min,
    Max,
    Sum,
    Count,
    Avg,
}

/// Kind of window functions.
#[derive(Debug, Clone, Copy, PartialEq, Eq, Hash, Structural)]
pub enum WindowFuncKind {
    // General-purpose window functions.
    RowNumber,
    Rank,
    DenseRank,
    Lag,
    Lead,
    /// An aggregate function used with `OVER`.
    Aggregate(AggKind),
}

impl WindowFuncKind {
    /// Whether the function ranks rows: `RowNumber`, `Rank` or `DenseRank`.
    pub fn is_rank(&self) -> (r: bool)
        ensures
            r == (*self is RowNumber || *self is Rank || *self is DenseRank),
    {
        matches!(self, WindowFuncKind::RowNumber | WindowFuncKind::Rank | WindowFuncKind::DenseRank)
    }
}

} // verus!
