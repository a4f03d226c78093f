use filehop::files::{
    accept_chunk, admit_new_send, cleanup_cleared, disk_allows, entry_action, fits_quota,
    managed_entity, next_delay, parse_state, partial_name, prepare_cutoff, reconcile_action,
    recovery_gate, replay_prepare, state_name, status_name, stream_complete, successor_step,
    transfer_config, transition, validate_prepare, write_gate, EntryAction, PrepareError,
    ReconcileAction, RecoveryGate, Refusal, Removal, Replay, SendEvent, SendRow, SendState,
    Status, StreamError, SuccessorStep, WriteGate,
};
use filehop::files::{
    entity_fault, failed_upload, file_state_name, next_cursor, parse_file_state, record_fault,
    scan_restarts, stored_file, validate_successor, EntityCheck, EntityFault, SuccessorIdError, FailedUpload, FileState, StoredFile,
};
use filehop::TransferConfig;

const SEND: &str = "12345678-1234-4234-8234-123456789abc";
const ATTEMPT: &str = "87654321-4321-4321-8321-cba987654321";

#[test]
fn defaults_match_the_documented_limits() {
    let c = TransferConfig::default();
    assert_eq!(c.max_file_size, 104_857_600);
    assert_eq!(c.quota, 1_073_741_824);
    assert_eq!(c.active_limit, 8);
    assert_eq!(c.disk_reserve, 67_108_864);
    assert_eq!((c.prepare_timeout_secs, c.idle_timeout_secs, c.total_timeout_secs, c.download_idle_timeout_secs), (120, 120, 1800, 120));
}

#[test]
fn configuration_rejects_negative_sizes_and_zero_limits() {
    let ok = transfer_config(10, 20, 1, 0, 1, 1, 1, 1).unwrap();
    assert_eq!(ok.max_file_size, 10);
    assert_eq!(ok.quota, 20);
    assert!(transfer_config(-1, 20, 1, 0, 1, 1, 1, 1).is_none());
    assert!(transfer_config(10, -1, 1, 0, 1, 1, 1, 1).is_none());
    assert!(transfer_config(10, 20, 0, 0, 1, 1, 1, 1).is_none());
    assert!(transfer_config(10, 20, 1, 0, 0, 1, 1, 1).is_none());
    assert!(transfer_config(10, 20, 1, 0, 1, 1, 1, 0).is_none());
}

#[test]
fn preparation_metadata_is_checked() {
    let p = validate_prepare(SEND, &ATTEMPT.to_uppercase(), "report.txt", 3, "text/plain", " Desk ").unwrap();
    assert_eq!(p.attempt_id, ATTEMPT);
    assert_eq!(p.source_label, "Desk");
    assert_eq!(validate_prepare("x", ATTEMPT, "a", 0, "", "Web").err(), Some(PrepareError::InvalidId));
    assert_eq!(validate_prepare(SEND, ATTEMPT, "a", -1, "", "Web").err(), Some(PrepareError::InvalidMetadata));
    assert_eq!(validate_prepare(SEND, ATTEMPT, "", 0, "", "Web").err(), Some(PrepareError::InvalidMetadata));
    assert_eq!(validate_prepare(SEND, ATTEMPT, "a\0b", 0, "", "Web").err(), Some(PrepareError::InvalidMetadata));
    assert!(validate_prepare(SEND, ATTEMPT, &"n".repeat(1024), 0, "", "Web").is_ok());
    assert_eq!(validate_prepare(SEND, ATTEMPT, &"n".repeat(1025), 0, "", "Web").err(), Some(PrepareError::InvalidMetadata));
    assert_eq!(validate_prepare(SEND, ATTEMPT, "a", 0, &"m".repeat(256), "Web").err(), Some(PrepareError::InvalidMetadata));
    assert_eq!(validate_prepare(SEND, ATTEMPT, "a", 0, "", " ").err(), Some(PrepareError::InvalidMetadata));
}

#[test]
fn file_limit_quota_and_pending_preparations_bound_admission() {
    let c = TransferConfig::default();
    assert_eq!(admit_new_send(false, 104_857_600, &c, 0, 0), None);
    assert_eq!(admit_new_send(false, 104_857_601, &c, 0, 0), Some(Refusal::FileTooLarge));
    assert_eq!(admit_new_send(true, 1, &c, 0, 0), Some(Refusal::SendConflict));
    assert_eq!(admit_new_send(false, 1, &c, 64, 0), Some(Refusal::TransferBusy));
    assert_eq!(admit_new_send(false, 1, &c, 63, 0), None);
    assert_eq!(admit_new_send(false, 3, &c, 0, 1_073_741_821), None);
    assert_eq!(admit_new_send(false, 4, &c, 0, 1_073_741_821), Some(Refusal::QuotaExceeded));
    assert!(fits_quota(0, 0, 0));
    assert!(!fits_quota(5, 4, 0));
    assert!(!fits_quota(1, 10, 10));
}

#[test]
fn disk_admission_keeps_the_reserve() {
    assert!(disk_allows(10, 5, 15));
    assert!(!disk_allows(10, 5, 14));
    assert!(!disk_allows(1, u64::MAX, u64::MAX - 1));
    assert!(disk_allows(1, u64::MAX, u64::MAX));
}

#[test]
fn repeated_preparations_replay_or_conflict() {
    assert_eq!(replay_prepare(false, Some(SendState::Prepared), SendState::Prepared), Replay::Conflict);
    assert_eq!(replay_prepare(true, None, SendState::Prepared), Replay::Conflict);
    assert_eq!(replay_prepare(true, Some(SendState::Failed), SendState::Prepared), Replay::State(SendState::Failed));
    assert_eq!(replay_prepare(true, Some(SendState::Cleaning), SendState::Success), Replay::State(SendState::Cleaning));
    assert_eq!(replay_prepare(true, Some(SendState::Prepared), SendState::Writing), Replay::Conflict);
    assert_eq!(replay_prepare(true, Some(SendState::Success), SendState::Success), Replay::State(SendState::Success));
}

#[test]
fn successors_need_a_failed_current_predecessor() {
    let c = TransferConfig::default();
    let row = |state, current_is_previous, size| Some(SendRow { state, current_is_previous, size });
    assert_eq!(successor_step(None, None, &c, 0), SuccessorStep::NotFound);
    assert_eq!(successor_step(row(SendState::Success, false, 3), None, &c, 0), SuccessorStep::Committed);
    assert_eq!(successor_step(row(SendState::Failed, true, 3), Some(SendState::Prepared), &c, 0), SuccessorStep::Replayed(SendState::Prepared));
    assert_eq!(successor_step(row(SendState::Failed, false, 3), None, &c, 0), SuccessorStep::Conflict);
    assert_eq!(successor_step(row(SendState::Prepared, true, 3), None, &c, 0), SuccessorStep::Busy);
    assert_eq!(successor_step(row(SendState::Failed, true, 104_857_601), None, &c, 0), SuccessorStep::Refused(Refusal::FileTooLarge));
    assert_eq!(successor_step(row(SendState::Failed, true, 3), None, &c, 1_073_741_822), SuccessorStep::Refused(Refusal::QuotaExceeded));
    assert_eq!(successor_step(row(SendState::Failed, true, 3), None, &c, 0), SuccessorStep::CheckSpace);
}

#[test]
fn uploads_claim_only_the_current_prepared_attempt() {
    assert_eq!(write_gate(None, 880), WriteGate::NotFound);
    assert_eq!(write_gate(Some((SendState::Success, true, 0)), 880), WriteGate::Committed);
    assert_eq!(write_gate(Some((SendState::Success, false, 0)), 880), WriteGate::AttemptConflict);
    assert_eq!(write_gate(Some((SendState::Prepared, false, 900)), 880), WriteGate::AttemptBusy);
    assert_eq!(write_gate(Some((SendState::Writing, true, 900)), 880), WriteGate::AttemptBusy);
    assert_eq!(write_gate(Some((SendState::Prepared, true, 900)), 880), WriteGate::Claim);
    // An expired preparation is refused even before reconciliation ends it.
    assert_eq!(write_gate(Some((SendState::Prepared, true, 880)), 880), WriteGate::AttemptBusy);
    assert_eq!(write_gate(Some((SendState::Prepared, true, 10)), 880), WriteGate::AttemptBusy);
    assert_eq!(prepare_cutoff(1_000, 120), 880);
}

#[test]
fn streams_must_deliver_exactly_the_declared_size() {
    assert_eq!(accept_chunk(0, 3, 3), Ok(3));
    assert_eq!(accept_chunk(3, 1, 3), Err(StreamError::SizeMismatch));
    assert_eq!(accept_chunk(i64::MAX, 1, i64::MAX), Err(StreamError::SizeMismatch));
    assert!(stream_complete(3, 3));
    assert!(!stream_complete(2, 3));
}

#[test]
fn life_cycle_transitions() {
    assert_eq!(transition(SendState::Prepared, SendEvent::StartWrite), Some(SendState::Writing));
    assert_eq!(transition(SendState::Writing, SendEvent::Commit), Some(SendState::Success));
    assert_eq!(transition(SendState::Writing, SendEvent::WriteFailed), Some(SendState::Cleaning));
    assert_eq!(transition(SendState::Cleaning, SendEvent::Cleared), Some(SendState::Failed));
    assert_eq!(transition(SendState::Failed, SendEvent::Retry), Some(SendState::Prepared));
    assert_eq!(transition(SendState::Failed, SendEvent::Orphan), Some(SendState::Cleaning));
    for e in [SendEvent::StartWrite, SendEvent::Commit, SendEvent::WriteFailed, SendEvent::Expire, SendEvent::Abandon, SendEvent::Restart, SendEvent::Orphan, SendEvent::Cleared, SendEvent::Retry] {
        assert_eq!(transition(SendState::Success, e), None);
    }
    assert_eq!(transition(SendState::Prepared, SendEvent::Commit), None);
    for s in [SendState::Prepared, SendState::Writing, SendState::Cleaning, SendState::Failed, SendState::Success] {
        assert_eq!(parse_state(state_name(s)), Some(s));
    }
    assert_eq!(parse_state("deleted"), None);
}

#[test]
fn reconciliation_spares_live_writers() {
    assert_eq!(reconcile_action(SendState::Writing, true, 0, 880), ReconcileAction::Skip);
    assert_eq!(reconcile_action(SendState::Writing, false, 0, 880), ReconcileAction::MarkCleaning(SendEvent::Abandon));
    assert_eq!(reconcile_action(SendState::Cleaning, true, 0, 880), ReconcileAction::Skip);
    assert_eq!(reconcile_action(SendState::Cleaning, false, 0, 880), ReconcileAction::Cleanup);
    assert_eq!(reconcile_action(SendState::Prepared, true, 880, 880), ReconcileAction::MarkCleaning(SendEvent::Expire));
    assert_eq!(reconcile_action(SendState::Prepared, false, 100, 880), ReconcileAction::MarkCleaning(SendEvent::Expire));
    assert_eq!(reconcile_action(SendState::Prepared, false, 881, 880), ReconcileAction::Skip);
    assert_eq!(reconcile_action(SendState::Success, false, 0, 880), ReconcileAction::Skip);
}

#[test]
fn cleanup_releases_only_after_synced_removals() {
    assert!(cleanup_cleared(Removal::Missing, Removal::Removed { synced: true }, true));
    assert!(!cleanup_cleared(Removal::Removed { synced: false }, Removal::Missing, true));
    assert!(!cleanup_cleared(Removal::Failed, Removal::Missing, true));
    assert!(!cleanup_cleared(Removal::Missing, Removal::Missing, false));
}

#[test]
fn recovery_adopts_only_exact_managed_names() {
    assert_eq!(managed_entity(SEND), Some((SEND.to_string(), false)));
    assert_eq!(managed_entity(&partial_name(SEND)), Some((SEND.to_string(), true)));
    assert_eq!(partial_name(SEND), format!("{SEND}.partial"));
    assert_eq!(managed_entity(&SEND.to_uppercase()), None);
    assert_eq!(managed_entity("unrelated.txt"), None);
    assert_eq!(managed_entity("storage-id"), None);
    assert_eq!(managed_entity(".partial"), None);
    assert_eq!(entry_action(Some(SendState::Success), false, true), EntryAction::Keep);
    assert_eq!(entry_action(Some(SendState::Success), false, false), EntryAction::RecordFault);
    // A leftover partial entity never marks a committed file broken.
    assert_eq!(entry_action(Some(SendState::Success), true, false), EntryAction::Keep);
    assert_eq!(entry_action(Some(SendState::Failed), false, false), EntryAction::Reclaim);
    assert_eq!(entry_action(None, true, true), EntryAction::Remove);
    assert_eq!(recovery_gate(Status::Initialized), RecoveryGate::Recover);
    assert_eq!(recovery_gate(Status::Uninitialized), RecoveryGate::Nothing);
    assert_eq!(recovery_gate(Status::StorageError), RecoveryGate::Refuse);
    assert_eq!(status_name(Status::StorageError), "storage_error");
}

#[test]
fn background_delay_backs_off_to_a_minute() {
    let mut d = 5;
    let mut seen = Vec::new();
    for _ in 0..6 {
        d = next_delay(d, false);
        seen.push(d);
    }
    assert_eq!(seen, vec![10, 20, 40, 60, 60, 60]);
    assert_eq!(next_delay(60, true), 5);
}

#[test]
fn storage_faults_are_recorded_once_and_never_repaired() {
    assert_eq!(record_fault(FileState::Available, 1), Some((FileState::StorageError, 2)));
    assert_eq!(record_fault(FileState::StorageError, 2), None);
    assert_eq!(record_fault(FileState::Deleted, 3), None);
    assert_eq!(stored_file(FileState::Available), StoredFile::Open);
    assert_eq!(stored_file(FileState::StorageError), StoredFile::Broken);
    assert_eq!(stored_file(FileState::Deleting), StoredFile::Gone);
    assert_eq!(entity_fault(Status::Initialized, EntityCheck::Missing), EntityFault::Record);
    assert_eq!(entity_fault(Status::Initialized, EntityCheck::Damaged), EntityFault::Record);
    // A permission error is no fault of the file.
    assert_eq!(entity_fault(Status::Initialized, EntityCheck::Inaccessible), EntityFault::Unavailable);
    assert_eq!(entity_fault(Status::StorageError, EntityCheck::Missing), EntityFault::Unavailable);
    assert_eq!(file_state_name(FileState::StorageError), "storage_error");
    assert_eq!(parse_file_state("storage_error"), Some(FileState::StorageError));
    assert_eq!(parse_file_state("available"), Some(FileState::Available));
    assert_eq!(parse_file_state("Available"), None);
}

#[test]
fn failed_uploads_keep_what_may_have_committed() {
    assert_eq!(failed_upload(true, Some(Some(SendState::Success))), FailedUpload::Committed);
    assert_eq!(failed_upload(true, Some(Some(SendState::Writing))), FailedUpload::Preserve);
    assert_eq!(failed_upload(true, None), FailedUpload::Preserve);
    assert_eq!(failed_upload(false, Some(Some(SendState::Success))), FailedUpload::Committed);
    assert_eq!(failed_upload(false, None), FailedUpload::Preserve);
    assert_eq!(failed_upload(false, Some(Some(SendState::Writing))), FailedUpload::Abandon);
    assert_eq!(failed_upload(false, Some(None)), FailedUpload::Abandon);
}

#[test]
fn reconciliation_scans_wrap_around() {
    let c = Some("b".to_string());
    assert!(scan_restarts(true, &c));
    assert!(!scan_restarts(false, &c));
    assert!(!scan_restarts(true, &None));
    assert_eq!(next_cursor(Some("c".to_string()), c.clone()), Some("c".to_string()));
    assert_eq!(next_cursor(None, c.clone()), c);
    assert_eq!(next_cursor(None, None), None);
}

#[test]
fn successor_identifiers_must_name_a_new_attempt() {
    let ids = validate_successor(SEND, &ATTEMPT.to_uppercase(), SEND).unwrap();
    assert_eq!(ids.attempt_id, ATTEMPT);
    assert_eq!(ids.previous_attempt_id, SEND);
    assert_eq!(validate_successor(SEND, ATTEMPT, &ATTEMPT.to_uppercase()).err(), Some(SuccessorIdError::SameAttempt));
    assert_eq!(validate_successor(SEND, "x", ATTEMPT).err(), Some(SuccessorIdError::InvalidId));
    assert_eq!(validate_successor(SEND, ATTEMPT, ATTEMPT).err(), Some(SuccessorIdError::SameAttempt));
}
