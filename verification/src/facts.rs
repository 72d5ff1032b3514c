use vstd::prelude::*;
use crate::symbols::Symbol;

verus! {

/// Identifier of a relation known to the evaluation engine: the six input
/// relations this driver fills and the single output relation it reads back.
#[derive(Clone, Copy, PartialEq, Eq, Structural, Debug)]
pub enum Relation {
    MarkAsLoanOrigin,
    AccessOrigin,
    CfgEdge,
    ClearOrigin,
    IntroduceSubset,
    InvalidateOrigin,
    InvalidatedOriginAccessed,
}

impl Relation {
    /// How many parameters a fact of this relation carries.
    pub open spec fn arity(self) -> nat {
        match self {
            Relation::MarkAsLoanOrigin => 1,
            Relation::AccessOrigin => 2,
            Relation::CfgEdge => 2,
            Relation::ClearOrigin => 2,
            Relation::IntroduceSubset => 3,
            Relation::InvalidateOrigin => 2,
            Relation::InvalidatedOriginAccessed => 2,
        }
    }

    /// The relations this driver inserts rows into; the remaining one is
    /// produced by the evaluator and only read back.
    pub open spec fn is_input(self) -> bool {
        self != Relation::InvalidatedOriginAccessed
    }
}

/// One typed input row, ready to be staged for insertion: a relation variant
/// whose fields are interned origin and node names, in schema order.
#[derive(Clone, Copy, PartialEq, Eq, Structural, Debug)]
pub enum RelationRow {
    /// The origin designates a borrow (loan).
    MarkAsLoanOrigin { o: Symbol },
    /// The origin is read or used at the node.
    AccessOrigin { o: Symbol, n: Symbol },
    /// Control flows from the first node to the second.
    CfgEdge { n1: Symbol, n2: Symbol },
    /// The origin's value is overwritten at the node.
    ClearOrigin { o: Symbol, n: Symbol },
    /// The first origin may flow into the second at the node.
    IntroduceSubset { o1: Symbol, o2: Symbol, n: Symbol },
    /// The loan behind the origin is invalidated at the node.
    InvalidateOrigin { o: Symbol, n: Symbol },
}

/// Under interner contents `w`, symbol `s` stands for text `t`.
pub open spec fn sym_resolves(w: Seq<Seq<char>>, s: Symbol, t: Seq<char>) -> bool {
    s.idx < w.len() && w[s.idx as int] == t
}

impl RelationRow {
    /// The relation a row belongs to.
    pub open spec fn relation(self) -> Relation {
        match self {
            RelationRow::MarkAsLoanOrigin { .. } => Relation::MarkAsLoanOrigin,
            RelationRow::AccessOrigin { .. } => Relation::AccessOrigin,
            RelationRow::CfgEdge { .. } => Relation::CfgEdge,
            RelationRow::ClearOrigin { .. } => Relation::ClearOrigin,
            RelationRow::IntroduceSubset { .. } => Relation::IntroduceSubset,
            RelationRow::InvalidateOrigin { .. } => Relation::InvalidateOrigin,
        }
    }

    /// The row's fields, in schema order.
    pub open spec fn fields(self) -> Seq<Symbol> {
        match self {
            RelationRow::MarkAsLoanOrigin { o } => seq![o],
            RelationRow::AccessOrigin { o, n } => seq![o, n],
            RelationRow::CfgEdge { n1, n2 } => seq![n1, n2],
            RelationRow::ClearOrigin { o, n } => seq![o, n],
            RelationRow::IntroduceSubset { o1, o2, n } => seq![o1, o2, n],
            RelationRow::InvalidateOrigin { o, n } => seq![o, n],
        }
    }

    /// Under interner contents `w`, the row's fields stand, in schema order,
    /// for the leading parameters `ps` of the statement it was made from.
    pub open spec fn resolves_to(self, ps: Seq<Seq<char>>, w: Seq<Seq<char>>) -> bool {
        &&& self.fields().len() <= ps.len()
        &&& forall|k: int|
            0 <= k < self.fields().len() ==> sym_resolves(w, self.fields()[k], ps[k])
    }
}

/// A row has as many fields as its relation's arity.
pub proof fn lemma_fields_match_arity(row: RelationRow)
    ensures
        row.fields().len() == row.relation().arity(),
{
}

/// Resolution only reads entries the symbols point at, so extending the
/// interner (while keeping the entries already issued) preserves it.
pub proof fn lemma_resolves_to_monotone(
    row: RelationRow,
    ps: Seq<Seq<char>>,
    w1: Seq<Seq<char>>,
    w2: Seq<Seq<char>>,
)
    requires
        row.resolves_to(ps, w1),
        w1.len() <= w2.len(),
        forall|i: int| 0 <= i < w1.len() ==> w2[i] == w1[i],
    ensures
        row.resolves_to(ps, w2),
{
}

} // verus!
