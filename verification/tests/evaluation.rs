use polonius::decode::{decode, ChangeEntry, DecodeError, InvalidAccess};
use polonius::dispatch::{translate_all, Statement};
use polonius::facts::{Relation, RelationRow};
use polonius::orchestrate::{EngineAction, EngineEvent, EvalError, Orchestrator, Phase};
use polonius::symbols::Interner;

fn stmt(name: &str, params: &[&str]) -> Statement {
    Statement {
        name: name.to_string(),
        params: params.iter().map(|p| p.to_string()).collect(),
    }
}

fn scenario_a() -> Vec<Statement> {
    vec![
        stmt("mark_as_loan_origin", &["L1"]),
        stmt("invalidate_origin", &["L1", "N2"]),
        stmt("access_origin", &["L1", "N2"]),
        stmt("cfg_edge", &["N1", "N2"]),
    ]
}

#[test]
fn successful_run_walks_all_phases() {
    let mut w = Interner::new();
    let rows = translate_all(&scenario_a(), &mut w).unwrap();
    let mut orch = Orchestrator::new(rows);
    assert_eq!(orch.phase, Phase::Idle);
    assert_eq!(
        orch.next_action(),
        Some(EngineAction::OpenSession { workers: 6, tracing: false })
    );
    assert_eq!(orch.step(EngineEvent::SessionOpened { ok: true }), Ok(()));
    assert_eq!(orch.phase, Phase::TransactionOpen { applied: false });
    assert_eq!(orch.next_action(), Some(EngineAction::ApplyInsertions));
    assert_eq!(orch.staged_rows().len(), 4);
    assert_eq!(orch.step(EngineEvent::UpdatesApplied { ok: true }), Ok(()));
    assert_eq!(orch.next_action(), Some(EngineAction::CommitTransaction));
    assert_eq!(orch.step(EngineEvent::CommitFinished { ok: true }), Ok(()));
    assert_eq!(orch.phase, Phase::Committed);
    assert_eq!(orch.next_action(), Some(EngineAction::StopSession));
    assert_eq!(orch.step(EngineEvent::SessionStopped { ok: true }), Ok(()));
    assert_eq!(orch.phase, Phase::Stopped);
    assert_eq!(orch.next_action(), None);
}

#[test]
fn failed_session_acquisition_is_fatal() {
    let mut orch = Orchestrator::new(Vec::new());
    let r = orch.step(EngineEvent::SessionOpened { ok: false });
    assert_eq!(r, Err(EvalError::EngineInitError));
    assert_eq!(orch.phase, Phase::Failed { error: EvalError::EngineInitError });
    assert_eq!(orch.next_action(), None);
}

#[test]
fn failed_bulk_update_aborts_the_transaction() {
    let mut orch = Orchestrator::new(Vec::new());
    orch.step(EngineEvent::SessionOpened { ok: true }).unwrap();
    let r = orch.step(EngineEvent::UpdatesApplied { ok: false });
    assert_eq!(r, Err(EvalError::UpdateError));
    assert_eq!(orch.phase, Phase::Failed { error: EvalError::UpdateError });
}

#[test]
fn failed_commit_is_fatal() {
    let mut orch = Orchestrator::new(Vec::new());
    orch.step(EngineEvent::SessionOpened { ok: true }).unwrap();
    orch.step(EngineEvent::UpdatesApplied { ok: true }).unwrap();
    let r = orch.step(EngineEvent::CommitFinished { ok: false });
    assert_eq!(r, Err(EvalError::CommitError));
    assert_eq!(orch.phase, Phase::Failed { error: EvalError::CommitError });
}

#[test]
fn failed_stop_is_reported_but_run_counts_as_stopped() {
    let mut orch = Orchestrator::new(Vec::new());
    orch.step(EngineEvent::SessionOpened { ok: true }).unwrap();
    orch.step(EngineEvent::UpdatesApplied { ok: true }).unwrap();
    orch.step(EngineEvent::CommitFinished { ok: true }).unwrap();
    let r = orch.step(EngineEvent::SessionStopped { ok: false });
    assert_eq!(r, Err(EvalError::StopError));
    assert_eq!(orch.phase, Phase::Stopped);
}

#[test]
fn scenario_a_translates_and_decodes_to_the_violation() {
    let mut w = Interner::new();
    let rows = translate_all(&scenario_a(), &mut w).unwrap();
    assert!(matches!(rows[0], RelationRow::MarkAsLoanOrigin { .. }));
    assert!(matches!(rows[1], RelationRow::InvalidateOrigin { .. }));
    assert!(matches!(rows[2], RelationRow::AccessOrigin { .. }));
    assert!(matches!(rows[3], RelationRow::CfgEdge { .. }));
    // The engine's fixpoint reports the invalidated origin accessed at N2;
    // its change-set row carries the handles of "L1" and "N2".
    let l1 = w.intern(&"L1".to_string());
    let n2 = w.intern(&"N2".to_string());
    let changes = vec![ChangeEntry {
        relation: Relation::InvalidatedOriginAccessed,
        fields: vec![l1, n2],
        weight: 1,
    }];
    let records = decode(&changes, &w).unwrap();
    assert_eq!(
        records,
        vec![InvalidAccess { accessed_origin: "L1".to_string(), node: "N2".to_string() }]
    );
}

#[test]
fn scenario_b_cleared_origin_decodes_to_no_violation() {
    let mut program = scenario_a();
    program.insert(2, stmt("clear_origin", &["L1", "N2"]));
    let mut w = Interner::new();
    let rows = translate_all(&program, &mut w).unwrap();
    assert_eq!(rows.len(), 5);
    assert!(matches!(rows[2], RelationRow::ClearOrigin { .. }));
    // With the origin cleared at N2 before the access, the engine's rules
    // deem it cleared and its change-set holds no output row.
    let changes: Vec<ChangeEntry> = Vec::new();
    let records = decode(&changes, &w).unwrap();
    assert!(records.is_empty());
}

#[test]
fn empty_input_yields_empty_output_and_no_error() {
    let mut w = Interner::new();
    let program: Vec<Statement> = Vec::new();
    let rows = translate_all(&program, &mut w).unwrap();
    assert!(rows.is_empty());
    let changes: Vec<ChangeEntry> = Vec::new();
    let records = decode(&changes, &w).unwrap();
    assert!(records.is_empty());
}

#[test]
fn decoding_is_deterministic_for_the_same_change_set() {
    let mut w = Interner::new();
    let l1 = w.intern(&"L1".to_string());
    let n2 = w.intern(&"N2".to_string());
    let n9 = w.intern(&"N9".to_string());
    let changes = vec![
        ChangeEntry {
            relation: Relation::InvalidatedOriginAccessed,
            fields: vec![l1, n2],
            weight: 1,
        },
        ChangeEntry {
            relation: Relation::InvalidatedOriginAccessed,
            fields: vec![l1, n9],
            weight: 1,
        },
    ];
    let once = decode(&changes, &w).unwrap();
    let twice = decode(&changes, &w).unwrap();
    assert_eq!(once, twice);
    assert_eq!(once.len(), 2);
}

#[test]
fn rows_of_other_relations_are_passed_over() {
    let mut w = Interner::new();
    let l1 = w.intern(&"L1".to_string());
    let n2 = w.intern(&"N2".to_string());
    let changes = vec![ChangeEntry { relation: Relation::CfgEdge, fields: vec![l1, n2], weight: 1 }];
    let records = decode(&changes, &w).unwrap();
    assert!(records.is_empty());
}

#[test]
fn retraction_of_an_output_row_fails_loudly() {
    let mut w = Interner::new();
    let l1 = w.intern(&"L1".to_string());
    let n2 = w.intern(&"N2".to_string());
    let changes = vec![ChangeEntry {
        relation: Relation::InvalidatedOriginAccessed,
        fields: vec![l1, n2],
        weight: -1,
    }];
    assert_eq!(decode(&changes, &w), Err(DecodeError::NotAnInsertion));
}

#[test]
fn zero_sign_on_an_output_row_fails_loudly() {
    let mut w = Interner::new();
    let l1 = w.intern(&"L1".to_string());
    let n2 = w.intern(&"N2".to_string());
    let changes = vec![ChangeEntry {
        relation: Relation::InvalidatedOriginAccessed,
        fields: vec![l1, n2],
        weight: 0,
    }];
    assert_eq!(decode(&changes, &w), Err(DecodeError::NotAnInsertion));
}

#[test]
fn malformed_output_row_fails_loudly() {
    let mut w = Interner::new();
    let l1 = w.intern(&"L1".to_string());
    let changes = vec![ChangeEntry {
        relation: Relation::InvalidatedOriginAccessed,
        fields: vec![l1],
        weight: 1,
    }];
    assert_eq!(decode(&changes, &w), Err(DecodeError::MalformedRow));
}

#[test]
fn foreign_symbol_in_output_row_fails_loudly() {
    let mut w = Interner::new();
    let l1 = w.intern(&"L1".to_string());
    let mut other = Interner::new();
    other.intern(&"L1".to_string());
    let n2 = other.intern(&"N2".to_string());
    let changes = vec![ChangeEntry {
        relation: Relation::InvalidatedOriginAccessed,
        fields: vec![l1, n2],
        weight: 1,
    }];
    assert_eq!(decode(&changes, &w), Err(DecodeError::UnknownSymbol));
}
