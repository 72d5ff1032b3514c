use vstd::prelude::*;
use crate::facts::Relation;
use crate::symbols::{Interner, Symbol};

verus! {

/// One row of the change-set the engine hands back at commit: the relation
/// the row belongs to, its fields in schema order, and its sign — a weight
/// of one means the row was inserted, a negative weight that it was
/// retracted.
pub struct ChangeEntry {
    pub relation: Relation,
    pub fields: Vec<Symbol>,
    pub weight: i64,
}

/// An entry's sign says it was inserted, not retracted.
pub open spec fn is_insertion(weight: int) -> bool {
    weight >= 1
}

/// The mathematical shape of a change-set row.
pub ghost struct ChangeEntryView {
    pub relation: Relation,
    pub fields: Seq<Symbol>,
    pub weight: int,
}

impl View for ChangeEntry {
    type V = ChangeEntryView;

    open spec fn view(&self) -> ChangeEntryView {
        ChangeEntryView { relation: self.relation, fields: self.fields@, weight: self.weight as int }
    }
}

/// A reported borrow-check violation: the named origin was still accessed at
/// the named node although it had already been invalidated there.
#[derive(Clone, PartialEq, Eq, Debug)]
pub struct InvalidAccess {
    pub accessed_origin: String,
    pub node: String,
}

/// The mathematical shape of a violation record.
pub ghost struct InvalidAccessView {
    pub accessed_origin: Seq<char>,
    pub node: Seq<char>,
}

impl View for InvalidAccess {
    type V = InvalidAccessView;

    open spec fn view(&self) -> InvalidAccessView {
        InvalidAccessView { accessed_origin: self.accessed_origin@, node: self.node@ }
    }
}

/// An internal inconsistency in the change-set — a defect of the engine
/// boundary, surfaced loudly rather than silently tolerated. A run starts
/// from an empty relational state and commits exactly once, so no retraction
/// of the output relation can legitimately occur.
#[derive(Clone, Copy, PartialEq, Eq, Structural, Debug)]
pub enum DecodeError {
    /// An output-relation row carried a sign that is no insertion.
    NotAnInsertion,
    /// An output-relation row did not have exactly the two schema fields.
    MalformedRow,
    /// An output-relation row held a handle the interner never issued.
    UnknownSymbol,
}

/// What is wrong with one change-set row, if anything. Rows of other
/// relations are no concern of this decoder; an output-relation row must be
/// an insertion of two resolvable fields — the run starts empty and commits
/// once, so no retraction of the output relation can legitimately occur.
pub open spec fn flaw_of(e: ChangeEntryView, w: Seq<Seq<char>>) -> Option<DecodeError> {
    if !(e.relation is InvalidatedOriginAccessed) {
        None
    } else if !is_insertion(e.weight) {
        Some(DecodeError::NotAnInsertion)
    } else if e.fields.len() != 2 {
        Some(DecodeError::MalformedRow)
    } else if !(e.fields[0].idx < w.len() && e.fields[1].idx < w.len()) {
        Some(DecodeError::UnknownSymbol)
    } else {
        None
    }
}

/// The flaw of the first inconsistent change-set row, if any.
pub open spec fn first_flaw(cs: Seq<ChangeEntryView>, w: Seq<Seq<char>>) -> Option<DecodeError>
    decreases cs.len(),
{
    if cs.len() == 0 {
        None
    } else if first_flaw(cs.drop_last(), w) is Some {
        first_flaw(cs.drop_last(), w)
    } else {
        flaw_of(cs.last(), w)
    }
}

/// Once a prefix holds a flaw, the whole change-set reports that same flaw:
/// decoding fails on the first inconsistent row.
pub proof fn lemma_first_flaw_of_prefix(cs: Seq<ChangeEntryView>, w: Seq<Seq<char>>, n: int)
    requires
        0 <= n <= cs.len(),
        first_flaw(cs.subrange(0, n), w) is Some,
    ensures
        first_flaw(cs, w) == first_flaw(cs.subrange(0, n), w),
    decreases cs.len() - n,
{
    if n == cs.len() {
        assert(cs.subrange(0, n) =~= cs);
    } else {
        assert(cs.subrange(0, n + 1).drop_last() =~= cs.subrange(0, n));
        lemma_first_flaw_of_prefix(cs, w, n + 1);
    }
}

/// The violation records a consistent change-set decodes to: one per
/// output-relation row, in the change-set's own order, each field resolved
/// back to its text.
pub open spec fn decoded_records(cs: Seq<ChangeEntryView>, w: Seq<Seq<char>>) -> Seq<
    InvalidAccessView,
>
    decreases cs.len(),
{
    if cs.len() == 0 {
        Seq::empty()
    } else {
        let rest = decoded_records(cs.drop_last(), w);
        let e = cs.last();
        if e.relation is InvalidatedOriginAccessed {
            rest.push(
                InvalidAccessView {
                    accessed_origin: w[e.fields[0].idx as int],
                    node: w[e.fields[1].idx as int],
                },
            )
        } else {
            rest
        }
    }
}

/// Law: decoding is deterministic. Two change-sets of the same length whose
/// rows agree — the same positions belong to the output relation, and there
/// the fields resolve, under each side's own interner contents, to the same
/// texts — decode to the very same violation records. With translation
/// deterministic as well, and the evaluator's fixpoint a pure function of
/// the input row set, running the same input twice yields the same records.
pub proof fn lemma_decoding_deterministic(
    cs1: Seq<ChangeEntryView>,
    w1: Seq<Seq<char>>,
    cs2: Seq<ChangeEntryView>,
    w2: Seq<Seq<char>>,
)
    requires
        cs1.len() == cs2.len(),
        forall|k: int|
            0 <= k < cs1.len() ==> ((#[trigger] cs1[k].relation) is InvalidatedOriginAccessed
                <==> (#[trigger] cs2[k].relation) is InvalidatedOriginAccessed),
        forall|k: int|
            0 <= k < cs1.len() && cs1[k].relation is InvalidatedOriginAccessed ==> {
                &&& w1[(#[trigger] cs1[k].fields)[0].idx as int] == w2[(#[trigger] cs2[k].fields)[0].idx as int]
                &&& w1[cs1[k].fields[1].idx as int] == w2[cs2[k].fields[1].idx as int]
            },
    ensures
        decoded_records(cs1, w1) == decoded_records(cs2, w2),
    decreases cs1.len(),
{
    if cs1.len() > 0 {
        lemma_decoding_deterministic(cs1.drop_last(), w1, cs2.drop_last(), w2);
        assert(cs1.last() == cs1[cs1.len() - 1]);
        assert(cs2.last() == cs2[cs2.len() - 1]);
    }
}

/// Decode the change-set: keep the output relation's rows, check each is an
/// insertion with the two schema fields and handles the interner issued, and
/// resolve the fields back to text. The first inconsistent row fails the
/// whole decoding with its flaw; rows of other relations are passed over.
pub fn decode(changes: &Vec<ChangeEntry>, interner: &Interner) -> (r: Result<
    Vec<InvalidAccess>,
    DecodeError,
>)
    requires
        interner.wf(),
    ensures
        ({
            let cs = changes@.map_values(|e: ChangeEntry| e@);
            match r {
                Ok(records) => {
                    &&& first_flaw(cs, interner@) is None
                    &&& records@.len() == decoded_records(cs, interner@).len()
                    &&& forall|k: int|
                        0 <= k < records@.len() ==> #[trigger] records@[k]@ == decoded_records(
                            cs,
                            interner@,
                        )[k]
                },
                Err(e) => first_flaw(cs, interner@) == Some(e),
            }
        }),
{
    let ghost cs = changes@.map_values(|e: ChangeEntry| e@);
    let mut records: Vec<InvalidAccess> = Vec::new();
    let mut i: usize = 0;
    while i < changes.len()
        invariant
            interner.wf(),
            i <= changes@.len(),
            cs == changes@.map_values(|e: ChangeEntry| e@),
            first_flaw(cs.subrange(0, i as int), interner@) is None,
            records@.len() == decoded_records(cs.subrange(0, i as int), interner@).len(),
            forall|k: int|
                0 <= k < records@.len() ==> #[trigger] records@[k]@ == decoded_records(
                    cs.subrange(0, i as int),
                    interner@,
                )[k],
        decreases changes@.len() - i,
    {
        let entry = &changes[i];
        let ghost prefix = cs.subrange(0, i as int);
        let ghost next = cs.subrange(0, i as int + 1);
        proof {
            assert(next.drop_last() =~= prefix);
            assert(next.last() == cs[i as int]);
            assert(cs[i as int] == entry@);
        }
        if entry.relation == Relation::InvalidatedOriginAccessed {
            if entry.weight < 1 {
                proof {
                    lemma_first_flaw_of_prefix(cs, interner@, i as int + 1);
                }
                return Err(DecodeError::NotAnInsertion);
            }
            if entry.fields.len() != 2 {
                proof {
                    lemma_first_flaw_of_prefix(cs, interner@, i as int + 1);
                }
                return Err(DecodeError::MalformedRow);
            }
            let s0 = entry.fields[0];
            let s1 = entry.fields[1];
            if !(interner.contains_symbol(s0) && interner.contains_symbol(s1)) {
                proof {
                    lemma_first_flaw_of_prefix(cs, interner@, i as int + 1);
                }
                return Err(DecodeError::UnknownSymbol);
            }
            let record = InvalidAccess {
                accessed_origin: interner.resolve(s0).clone(),
                node: interner.resolve(s1).clone(),
            };
            records.push(record);
        }
        i += 1;
    }
    proof {
        assert(cs.subrange(0, i as int) =~= cs);
    }
    Ok(records)
}

} // verus!
