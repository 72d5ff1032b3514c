use vstd::prelude::*;
use vstd::pervasive::unreached;
use crate::facts::{Relation, RelationRow, sym_resolves};
use crate::symbols::{Interner, distinct_texts};

verus! {

/// One parsed statement from the fact source: a name together with its
/// positional parameters. The name is either one of the six input relation
/// names or an opaque annotation this driver skips.
pub struct Statement {
    pub name: String,
    pub params: Vec<String>,
}

/// The mathematical shape of a statement: its name and parameters as
/// character sequences.
pub ghost struct StatementView {
    pub name: Seq<char>,
    pub params: Seq<Seq<char>>,
}

impl View for Statement {
    type V = StatementView;

    open spec fn view(&self) -> StatementView {
        StatementView { name: self.name@, params: self.params@.map_values(|p: String| p@) }
    }
}

/// Name of a schema field, used to report exactly which parameter of a fact
/// was missing.
#[derive(Clone, Copy, PartialEq, Eq, Structural, Debug)]
pub enum SchemaField {
    Origin,
    Origin1,
    Origin2,
    Node,
    Node1,
    Node2,
}

/// A malformed fact row: fatal for the whole translation, surfaced with the
/// relation and the first missing field's name.
#[derive(Clone, Copy, PartialEq, Eq, Structural, Debug)]
pub enum DispatchError {
    MissingParameter { relation: Relation, field: SchemaField },
}

/// The input relation a statement name designates, if any. Matching is
/// case-sensitive and exact; any other name is not analysis input.
pub open spec fn relation_of_name(name: Seq<char>) -> Option<Relation> {
    if name == "mark_as_loan_origin"@ {
        Some(Relation::MarkAsLoanOrigin)
    } else if name == "access_origin"@ {
        Some(Relation::AccessOrigin)
    } else if name == "cfg_edge"@ {
        Some(Relation::CfgEdge)
    } else if name == "clear_origin"@ {
        Some(Relation::ClearOrigin)
    } else if name == "introduce_subset"@ {
        Some(Relation::IntroduceSubset)
    } else if name == "invalidate_origin"@ {
        Some(Relation::InvalidateOrigin)
    } else {
        None
    }
}

/// The name of the field at position `k` of a relation's schema.
pub open spec fn field_at(rel: Relation, k: int) -> SchemaField {
    match rel {
        Relation::MarkAsLoanOrigin => SchemaField::Origin,
        Relation::AccessOrigin => if k == 0 {
            SchemaField::Origin
        } else {
            SchemaField::Node
        },
        Relation::CfgEdge => if k == 0 {
            SchemaField::Node1
        } else {
            SchemaField::Node2
        },
        Relation::ClearOrigin => if k == 0 {
            SchemaField::Origin
        } else {
            SchemaField::Node
        },
        Relation::IntroduceSubset => if k == 0 {
            SchemaField::Origin1
        } else if k == 1 {
            SchemaField::Origin2
        } else {
            SchemaField::Node
        },
        Relation::InvalidateOrigin => if k == 0 {
            SchemaField::Origin
        } else {
            SchemaField::Node
        },
        Relation::InvalidatedOriginAccessed => if k == 0 {
            SchemaField::Origin
        } else {
            SchemaField::Node
        },
    }
}

/// What is wrong with one statement, if anything: a known relation name with
/// fewer parameters than its arity fails on the first missing field; an
/// unknown name is no fault, it is skipped.
pub open spec fn fault_of(s: StatementView) -> Option<DispatchError> {
    match relation_of_name(s.name) {
        None => None,
        Some(rel) => if s.params.len() < rel.arity() {
            Some(
                DispatchError::MissingParameter {
                    relation: rel,
                    field: field_at(rel, s.params.len() as int),
                },
            )
        } else {
            None
        },
    }
}

/// The statements whose names designate input relations, in order; the rest
/// are opaque annotations and contribute nothing.
pub open spec fn kept_statements(ss: Seq<StatementView>) -> Seq<StatementView>
    decreases ss.len(),
{
    if ss.len() == 0 {
        Seq::empty()
    } else {
        let rest = kept_statements(ss.drop_last());
        if relation_of_name(ss.last().name) is Some {
            rest.push(ss.last())
        } else {
            rest
        }
    }
}

/// The fault of the first malformed statement, if any.
pub open spec fn first_fault(ss: Seq<StatementView>) -> Option<DispatchError>
    decreases ss.len(),
{
    if ss.len() == 0 {
        None
    } else if first_fault(ss.drop_last()) is Some {
        first_fault(ss.drop_last())
    } else {
        fault_of(ss.last())
    }
}

/// Once a prefix holds a fault, the whole sequence reports that same fault:
/// translation aborts on the first malformed statement.
pub proof fn lemma_first_fault_of_prefix(ss: Seq<StatementView>, n: int)
    requires
        0 <= n <= ss.len(),
        first_fault(ss.subrange(0, n)) is Some,
    ensures
        first_fault(ss) == first_fault(ss.subrange(0, n)),
    decreases ss.len() - n,
{
    if n == ss.len() {
        assert(ss.subrange(0, n) =~= ss);
    } else {
        assert(ss.subrange(0, n + 1).drop_last() =~= ss.subrange(0, n));
        assert(ss.subrange(0, n + 1).last() == ss[n]);
        lemma_first_fault_of_prefix(ss, n + 1);
    }
}

/// The rows `rows` are exactly what translating the statements `ss` yields,
/// read under interner contents `w`: one row per kept statement, of the
/// relation its name designates, whose fields stand for the statement's
/// leading parameters in schema order.
pub open spec fn translation_matches(
    ss: Seq<StatementView>,
    rows: Seq<RelationRow>,
    w: Seq<Seq<char>>,
) -> bool {
    &&& rows.len() == kept_statements(ss).len()
    &&& forall|k: int|
        0 <= k < rows.len() ==> {
            &&& Some(#[trigger] rows[k].relation()) == relation_of_name(kept_statements(ss)[k].name)
            &&& rows[k].resolves_to(kept_statements(ss)[k].params, w)
        }
}

/// Translate one statement: map its name to a relation variant, consume the
/// relation's parameters from the front in schema order, intern each origin
/// and node name, and build the typed row. An unknown name yields `Ok(None)`
/// and leaves the interner untouched; too few parameters is an error naming
/// the relation and the first missing field, and interns nothing.
pub fn translate(name: &String, params: &Vec<String>, interner: &mut Interner) -> (r: Result<
    Option<RelationRow>,
    DispatchError,
>)
    requires
        old(interner).wf(),
    ensures
        final(interner).wf(),
        old(interner)@.len() <= final(interner)@.len(),
        forall|i: int| 0 <= i < old(interner)@.len() ==> final(interner)@[i] == old(interner)@[i],
        ({
            let sv = StatementView {
                name: name@,
                params: params@.map_values(|p: String| p@),
            };
            match relation_of_name(name@) {
                None => r == Ok::<Option<RelationRow>, DispatchError>(None)
                    && final(interner)@ == old(interner)@,
                Some(rel) => if params@.len() < rel.arity() {
                    r == Err::<Option<RelationRow>, DispatchError>(fault_of(sv).unwrap())
                        && final(interner)@ == old(interner)@
                } else {
                    match r {
                        Ok(Some(row)) => row.relation() == rel && row.resolves_to(
                            sv.params,
                            final(interner)@,
                        ),
                        _ => false,
                    }
                },
            }
        }),
{
    let rel: Relation;
    if string_eq_literal(name, "mark_as_loan_origin") {
        rel = Relation::MarkAsLoanOrigin;
    } else if string_eq_literal(name, "access_origin") {
        rel = Relation::AccessOrigin;
    } else if string_eq_literal(name, "cfg_edge") {
        rel = Relation::CfgEdge;
    } else if string_eq_literal(name, "clear_origin") {
        rel = Relation::ClearOrigin;
    } else if string_eq_literal(name, "introduce_subset") {
        rel = Relation::IntroduceSubset;
    } else if string_eq_literal(name, "invalidate_origin") {
        rel = Relation::InvalidateOrigin;
    } else {
        return Ok(None);
    }
    match rel {
        Relation::MarkAsLoanOrigin => {
            if params.len() < 1 {
                return Err(DispatchError::MissingParameter { relation: rel, field: SchemaField::Origin });
            }
            let o = interner.intern(&params[0]);
            Ok(Some(RelationRow::MarkAsLoanOrigin { o }))
        },
        Relation::AccessOrigin => {
            if params.len() < 2 {
                let field = if params.len() == 0 {
                    SchemaField::Origin
                } else {
                    SchemaField::Node
                };
                return Err(DispatchError::MissingParameter { relation: rel, field });
            }
            let o = interner.intern(&params[0]);
            let n = interner.intern(&params[1]);
            Ok(Some(RelationRow::AccessOrigin { o, n }))
        },
        Relation::CfgEdge => {
            if params.len() < 2 {
                let field = if params.len() == 0 {
                    SchemaField::Node1
                } else {
                    SchemaField::Node2
                };
                return Err(DispatchError::MissingParameter { relation: rel, field });
            }
            let n1 = interner.intern(&params[0]);
            let n2 = interner.intern(&params[1]);
            Ok(Some(RelationRow::CfgEdge { n1, n2 }))
        },
        Relation::ClearOrigin => {
            if params.len() < 2 {
                let field = if params.len() == 0 {
                    SchemaField::Origin
                } else {
                    SchemaField::Node
                };
                return Err(DispatchError::MissingParameter { relation: rel, field });
            }
            let o = interner.intern(&params[0]);
            let n = interner.intern(&params[1]);
            Ok(Some(RelationRow::ClearOrigin { o, n }))
        },
        Relation::IntroduceSubset => {
            if params.len() < 3 {
                let field = if params.len() == 0 {
                    SchemaField::Origin1
                } else if params.len() == 1 {
                    SchemaField::Origin2
                } else {
                    SchemaField::Node
                };
                return Err(DispatchError::MissingParameter { relation: rel, field });
            }
            let o1 = interner.intern(&params[0]);
            let o2 = interner.intern(&params[1]);
            let n = interner.intern(&params[2]);
            Ok(Some(RelationRow::IntroduceSubset { o1, o2, n }))
        },
        // The six name matches above never yield the output relation.
        Relation::InvalidatedOriginAccessed => unreached(),
        Relation::InvalidateOrigin => {
            if params.len() < 2 {
                let field = if params.len() == 0 {
                    SchemaField::Origin
                } else {
                    SchemaField::Node
                };
                return Err(DispatchError::MissingParameter { relation: rel, field });
            }
            let o = interner.intern(&params[0]);
            let n = interner.intern(&params[1]);
            Ok(Some(RelationRow::InvalidateOrigin { o, n }))
        },
    }
}

/// Translate a whole program: every statement in order, skipping the ones
/// whose names are no input relation. The first malformed statement aborts
/// the whole translation with its fault; nothing partial is handed on. On
/// success the rows are exactly the kept statements' rows, in program order,
/// readable under the final interner contents.
pub fn translate_all(program: &Vec<Statement>, interner: &mut Interner) -> (r: Result<
    Vec<RelationRow>,
    DispatchError,
>)
    requires
        old(interner).wf(),
    ensures
        final(interner).wf(),
        old(interner)@.len() <= final(interner)@.len(),
        forall|i: int| 0 <= i < old(interner)@.len() ==> final(interner)@[i] == old(interner)@[i],
        ({
            let ss = program@.map_values(|s: Statement| s@);
            match r {
                Ok(rows) => first_fault(ss) is None && translation_matches(
                    ss,
                    rows@,
                    final(interner)@,
                ),
                Err(e) => first_fault(ss) == Some(e),
            }
        }),
{
    let ghost ss = program@.map_values(|s: Statement| s@);
    let mut rows: Vec<RelationRow> = Vec::new();
    let mut i: usize = 0;
    while i < program.len()
        invariant
            old(interner).wf(),
            interner.wf(),
            old(interner)@.len() <= interner@.len(),
            forall|j: int| 0 <= j < old(interner)@.len() ==> interner@[j] == old(interner)@[j],
            i <= program@.len(),
            ss == program@.map_values(|s: Statement| s@),
            first_fault(ss.subrange(0, i as int)) is None,
            translation_matches(ss.subrange(0, i as int), rows@, interner@),
        decreases program@.len() - i,
    {
        let stmt = &program[i];
        let ghost w_before = interner@;
        let ghost prefix = ss.subrange(0, i as int);
        let ghost next = ss.subrange(0, i as int + 1);
        proof {
            assert(next.drop_last() =~= prefix);
            assert(next.last() == ss[i as int]);
            assert(ss[i as int] == stmt@);
        }
        match translate(&stmt.name, &stmt.params, interner) {
            Ok(None) => {
                proof {
                    assert(kept_statements(next) =~= kept_statements(prefix));
                }
            },
            Ok(Some(row)) => {
                proof {
                    assert(kept_statements(next) =~= kept_statements(prefix).push(stmt@));
                    assert forall|k: int| 0 <= k < rows@.len() implies {
                        &&& Some(#[trigger] rows@[k].relation()) == relation_of_name(
                            kept_statements(prefix)[k].name,
                        )
                        &&& rows@[k].resolves_to(kept_statements(prefix)[k].params, interner@)
                    } by {
                        crate::facts::lemma_resolves_to_monotone(
                            rows@[k],
                            kept_statements(prefix)[k].params,
                            w_before,
                            interner@,
                        );
                    }
                }
                rows.push(row);
            },
            Err(e) => {
                proof {
                    assert(fault_of(stmt@) == Some(e));
                    assert(first_fault(next) == Some(e));
                    lemma_first_fault_of_prefix(ss, i as int + 1);
                }
                return Err(e);
            },
        }
        i += 1;
    }
    proof {
        assert(ss.subrange(0, i as int) =~= ss);
    }
    Ok(rows)
}

/// Law: translation is deterministic. Two translations of the same
/// statements — whatever interner contents each run ended with — yield the
/// same rows up to interning: row for row the same relation, and field for
/// field the same resolved text. The evaluator's fixpoint being a pure
/// function of the input row set, the same input therefore yields the same
/// violations.
pub proof fn lemma_translation_deterministic(
    ss: Seq<StatementView>,
    rows1: Seq<RelationRow>,
    w1: Seq<Seq<char>>,
    rows2: Seq<RelationRow>,
    w2: Seq<Seq<char>>,
)
    requires
        translation_matches(ss, rows1, w1),
        translation_matches(ss, rows2, w2),
    ensures
        rows1.len() == rows2.len(),
        forall|k: int|
            0 <= k < rows1.len() ==> #[trigger] rows1[k].relation() == rows2[k].relation(),
        forall|k: int, f: int|
            0 <= k < rows1.len() && 0 <= f < rows1[k].fields().len()
                ==> w1[#[trigger] rows1[k].fields()[f].idx as int]
                    == w2[#[trigger] rows2[k].fields()[f].idx as int],
{
    assert forall|k: int| 0 <= k < rows1.len() implies #[trigger] rows1[k].relation()
        == rows2[k].relation() by {
        assert(Some(rows1[k].relation()) == relation_of_name(kept_statements(ss)[k].name));
        assert(Some(rows2[k].relation()) == relation_of_name(kept_statements(ss)[k].name));
    }
    assert forall|k: int, f: int|
        0 <= k < rows1.len() && 0 <= f < rows1[k].fields().len() implies w1[#[trigger] rows1[k].fields()[f].idx as int]
        == w2[#[trigger] rows2[k].fields()[f].idx as int] by {
        crate::facts::lemma_fields_match_arity(rows1[k]);
        crate::facts::lemma_fields_match_arity(rows2[k]);
        let ps = kept_statements(ss)[k].params;
        assert(sym_resolves(w1, rows1[k].fields()[f], ps[f]));
        assert(sym_resolves(w2, rows2[k].fields()[f], ps[f]));
    }
}

/// Law: translation only ever stages rows of the six input relations — the
/// output relation is produced by the evaluator, never inserted by this
/// driver.
pub proof fn lemma_translation_stages_only_input(
    ss: Seq<StatementView>,
    rows: Seq<RelationRow>,
    w: Seq<Seq<char>>,
)
    requires
        translation_matches(ss, rows, w),
    ensures
        forall|k: int| 0 <= k < rows.len() ==> (#[trigger] rows[k].relation()).is_input(),
{
    assert forall|k: int| 0 <= k < rows.len() implies (#[trigger] rows[k].relation()).is_input() by {
        assert(Some(rows[k].relation()) == relation_of_name(kept_statements(ss)[k].name));
    }
}

/// Law: duplicate facts collapse into identical rows. A row made from
/// parameters `ps` under interner contents `w1`, and a row of the same
/// relation made later from the same `ps` under extended, still
/// duplicate-free contents `w2`, are the very same row, symbol for symbol.
/// Staging a fact twice therefore stages the same row twice, and the set
/// semantics of relations leave a single fact — the output is not
/// duplicated.
pub proof fn lemma_duplicate_rows_coincide(
    row1: RelationRow,
    row2: RelationRow,
    ps: Seq<Seq<char>>,
    w1: Seq<Seq<char>>,
    w2: Seq<Seq<char>>,
)
    requires
        row1.relation() == row2.relation(),
        row1.resolves_to(ps, w1),
        row2.resolves_to(ps, w2),
        w1.len() <= w2.len(),
        forall|i: int| 0 <= i < w1.len() ==> w2[i] == w1[i],
        distinct_texts(w2),
    ensures
        row1 == row2,
{
    crate::facts::lemma_resolves_to_monotone(row1, ps, w1, w2);
    crate::facts::lemma_fields_match_arity(row1);
    crate::facts::lemma_fields_match_arity(row2);
    assert forall|f: int| 0 <= f < row1.fields().len() implies #[trigger] row1.fields()[f]
        == row2.fields()[f] by {
        let a = row1.fields()[f];
        let b = row2.fields()[f];
        assert(sym_resolves(w2, a, ps[f]));
        assert(sym_resolves(w2, b, ps[f]));
        if a.idx != b.idx {
            if a.idx < b.idx {
                assert(w2[a.idx as int] != w2[b.idx as int]);
            } else {
                assert(w2[b.idx as int] != w2[a.idx as int]);
            }
        }
    }
    assert(row1.fields() =~= row2.fields());
    match (row1, row2) {
        (RelationRow::MarkAsLoanOrigin { o: a0 }, RelationRow::MarkAsLoanOrigin { o: b0 }) => {
            assert(a0 == row1.fields()[0] && b0 == row2.fields()[0]);
        },
        (
            RelationRow::AccessOrigin { o: a0, n: a1 },
            RelationRow::AccessOrigin { o: b0, n: b1 },
        ) => {
            assert(a0 == row1.fields()[0] && a1 == row1.fields()[1]);
            assert(b0 == row2.fields()[0] && b1 == row2.fields()[1]);
        },
        (RelationRow::CfgEdge { n1: a0, n2: a1 }, RelationRow::CfgEdge { n1: b0, n2: b1 }) => {
            assert(a0 == row1.fields()[0] && a1 == row1.fields()[1]);
            assert(b0 == row2.fields()[0] && b1 == row2.fields()[1]);
        },
        (
            RelationRow::ClearOrigin { o: a0, n: a1 },
            RelationRow::ClearOrigin { o: b0, n: b1 },
        ) => {
            assert(a0 == row1.fields()[0] && a1 == row1.fields()[1]);
            assert(b0 == row2.fields()[0] && b1 == row2.fields()[1]);
        },
        (
            RelationRow::IntroduceSubset { o1: a0, o2: a1, n: a2 },
            RelationRow::IntroduceSubset { o1: b0, o2: b1, n: b2 },
        ) => {
            assert(a0 == row1.fields()[0] && a1 == row1.fields()[1] && a2 == row1.fields()[2]);
            assert(b0 == row2.fields()[0] && b1 == row2.fields()[1] && b2 == row2.fields()[2]);
        },
        (
            RelationRow::InvalidateOrigin { o: a0, n: a1 },
            RelationRow::InvalidateOrigin { o: b0, n: b1 },
        ) => {
            assert(a0 == row1.fields()[0] && a1 == row1.fields()[1]);
            assert(b0 == row2.fields()[0] && b1 == row2.fields()[1]);
        },
        _ => {},
    }
}

/// Compare an owned string against a literal, by their characters.
fn string_eq_literal(s: &String, lit: &str) -> (b: bool)
    ensures
        b == (s@ == lit@),
{
    let owned: String = lit.to_owned();
    *s == owned
}

} // verus!
