//! File transfers: resource configuration, what a preparation must satisfy, quota and
//! disk admission, the life cycle of a file send, and the decisions of background
//! reconciliation and startup recovery.
use crate::chars::{chars_of, contains_char, slice_eq, string_of, trim, trim_space};
use crate::ids::{canonical_uuid, spec_canonical_uuid};
use crate::messages::{label_ok, utf8_len};
use vstd::prelude::*;

verus! {

broadcast use vstd::string::group_string_axioms;

/// Limits of the transfer service. Durations are whole seconds.
#[derive(Clone, Copy, PartialEq, Eq, Structural, Debug)]
pub struct TransferConfig {
    /// The largest file accepted, in bytes.
    pub max_file_size: i64,
    /// The bytes that committed and reserved files may occupy together.
    pub quota: i64,
    /// How long a preparation may wait for its upload to start.
    pub prepare_timeout_secs: u64,
    /// How long an upload may go without receiving data.
    pub idle_timeout_secs: u64,
    /// How long one upload may take in all.
    pub total_timeout_secs: u64,
    /// How long a download may go without progress.
    pub download_idle_timeout_secs: u64,
    /// Uploads, downloads and preparations allowed at once (each counted separately).
    pub active_limit: usize,
    /// Free disk space always kept, in bytes.
    pub disk_reserve: u64,
}

/// Whether a configuration is one the service runs with.
pub open spec fn config_ok(c: TransferConfig) -> bool {
    &&& c.max_file_size >= 0
    &&& c.quota >= 0
    &&& c.active_limit > 0
    &&& c.prepare_timeout_secs > 0
    &&& c.idle_timeout_secs > 0
    &&& c.total_timeout_secs > 0
    &&& c.download_idle_timeout_secs > 0
}

impl Default for TransferConfig {
    /// 100 MiB files, a 1 GiB quota, 8 concurrent transfers, a 64 MiB disk reserve, two
    /// minutes to start or stall, half an hour per upload.
    fn default() -> (c: TransferConfig)
        ensures
            c == (TransferConfig {
                max_file_size: 104_857_600,
                quota: 1_073_741_824,
                prepare_timeout_secs: 120,
                idle_timeout_secs: 120,
                total_timeout_secs: 1800,
                download_idle_timeout_secs: 120,
                active_limit: 8,
                disk_reserve: 67_108_864,
            }),
    {
        TransferConfig {
            max_file_size: 104_857_600,
            quota: 1_073_741_824,
            prepare_timeout_secs: 120,
            idle_timeout_secs: 120,
            total_timeout_secs: 1800,
            download_idle_timeout_secs: 120,
            active_limit: 8,
            disk_reserve: 67_108_864,
        }
    }
}

/// Builds the configuration from the command-line settings, refusing negative sizes, a
/// zero transfer limit and zero timeouts.
pub fn transfer_config(
    max_file_bytes: i64,
    file_quota_bytes: i64,
    transfer_active_limit: usize,
    disk_reserve_bytes: u64,
    prepare_timeout_secs: u64,
    upload_idle_secs: u64,
    upload_total_secs: u64,
    download_idle_secs: u64,
) -> (r: Option<TransferConfig>)
    ensures
        r is Some <==> (max_file_bytes >= 0 && file_quota_bytes >= 0 && transfer_active_limit > 0
            && prepare_timeout_secs > 0 && upload_idle_secs > 0 && upload_total_secs > 0
            && download_idle_secs > 0),
        r matches Some(c) ==> c == (TransferConfig {
            max_file_size: max_file_bytes,
            quota: file_quota_bytes,
            prepare_timeout_secs,
            idle_timeout_secs: upload_idle_secs,
            total_timeout_secs: upload_total_secs,
            download_idle_timeout_secs: download_idle_secs,
            active_limit: transfer_active_limit,
            disk_reserve: disk_reserve_bytes,
        }) && config_ok(c),
{
    if max_file_bytes < 0 || file_quota_bytes < 0 || transfer_active_limit == 0
        || prepare_timeout_secs == 0 || upload_idle_secs == 0 || upload_total_secs == 0
        || download_idle_secs == 0 {
        return None;
    }
    Some(TransferConfig {
        max_file_size: max_file_bytes,
        quota: file_quota_bytes,
        prepare_timeout_secs,
        idle_timeout_secs: upload_idle_secs,
        total_timeout_secs: upload_total_secs,
        download_idle_timeout_secs: download_idle_secs,
        active_limit: transfer_active_limit,
        disk_reserve: disk_reserve_bytes,
    })
}

// ---------------------------------------------------------------------------------------
// Preparation requests
// ---------------------------------------------------------------------------------------

/// The most UTF-8 bytes of a file name.
pub const MAX_NAME_BYTES: usize = 1024;

/// The most UTF-8 bytes of a media type.
pub const MAX_MIME_BYTES: usize = 255;

/// Why a preparation is refused before any state is touched.
#[derive(Clone, Copy, PartialEq, Eq, Structural, Debug)]
pub enum PrepareError {
    InvalidId,
    InvalidMetadata,
}

/// A preparation that passed validation.
pub struct PrepareRequest {
    pub send_id: String,
    pub attempt_id: String,
    pub name: String,
    pub size: i64,
    pub mime: String,
    pub source_label: String,
}

/// Whether file metadata is acceptable: a non-negative size, a non-empty name of at most
/// 1024 bytes without NUL, a media type of at most 255 bytes and a valid source label.
pub open spec fn metadata_ok(name: Seq<char>, size: i64, mime: Seq<char>, label: Seq<char>) -> bool {
    &&& size >= 0
    &&& name.len() > 0
    &&& utf8_len(name) <= MAX_NAME_BYTES
    &&& !name.contains('\0')
    &&& utf8_len(mime) <= MAX_MIME_BYTES
    &&& label_ok(label)
}

pub open spec fn prepare_error(
    send_id: Seq<char>,
    attempt_id: Seq<char>,
    name: Seq<char>,
    size: i64,
    mime: Seq<char>,
    label: Seq<char>,
) -> Option<PrepareError> {
    if spec_canonical_uuid(send_id) is None || spec_canonical_uuid(attempt_id) is None {
        Some(PrepareError::InvalidId)
    } else if !metadata_ok(name, size, mime, label) {
        Some(PrepareError::InvalidMetadata)
    } else {
        None
    }
}

/// Validates a preparation: both identifiers must be UUIDs (kept in canonical form) and
/// the metadata acceptable; the label is kept trimmed.
pub fn validate_prepare(
    send_id: &str,
    attempt_id: &str,
    name: &str,
    size: i64,
    mime: &str,
    source_label: &str,
) -> (r: Result<PrepareRequest, PrepareError>)
    ensures
        match r {
            Ok(p) => {
                &&& prepare_error(send_id@, attempt_id@, name@, size, mime@, source_label@) is None
                &&& spec_canonical_uuid(send_id@) == Some(p.send_id@)
                &&& spec_canonical_uuid(attempt_id@) == Some(p.attempt_id@)
                &&& p.name@ == name@
                &&& p.size == size
                &&& p.mime@ == mime@
                &&& p.source_label@ == trim(source_label@)
            },
            Err(e) => prepare_error(send_id@, attempt_id@, name@, size, mime@, source_label@) == Some(e),
        },
{
    let send = canonical_uuid(send_id);
    let attempt = canonical_uuid(attempt_id);
    let (send, attempt) = match (send, attempt) {
        (Some(s), Some(a)) => (s, a),
        _ => return Err(PrepareError::InvalidId),
    };
    let label = trim_space(source_label);
    let name_chars = chars_of(name);
    let label_count = chars_of(label.as_str()).len();
    if size < 0 || name_chars.len() == 0 || name.as_bytes().len() > MAX_NAME_BYTES
        || contains_char(&name_chars, '\0') || mime.as_bytes().len() > MAX_MIME_BYTES || label_count < 1
        || label_count > 64 {
        return Err(PrepareError::InvalidMetadata);
    }
    Ok(PrepareRequest {
        send_id: send,
        attempt_id: attempt,
        name: name.to_owned(),
        size,
        mime: mime.to_owned(),
        source_label: label,
    })
}

/// Whether a stored send carries the same metadata as a repeated preparation.
pub fn same_metadata(name: &str, size: i64, mime: &str, label: &str, p: &PrepareRequest) -> (r: bool)
    ensures
        r == (name@ == p.name@ && size == p.size && mime@ == p.mime@ && label@ == p.source_label@),
{
    let a = chars_of(name);
    let b = chars_of(p.name.as_str());
    let c = chars_of(mime);
    let d = chars_of(p.mime.as_str());
    let e = chars_of(label);
    let f = chars_of(p.source_label.as_str());
    proof {
        assert(a@.subrange(0, a@.len() as int) =~= a@);
        assert(c@.subrange(0, c@.len() as int) =~= c@);
        assert(e@.subrange(0, e@.len() as int) =~= e@);
    }
    slice_eq(&a, 0, a.len(), &b) && size == p.size && slice_eq(&c, 0, c.len(), &d)
        && slice_eq(&e, 0, e.len(), &f)
}

// ---------------------------------------------------------------------------------------
// Admission: quota, pending preparations and disk space
// ---------------------------------------------------------------------------------------

/// Unstarted preparations plus preparations of the last hour allowed at once.
pub const PENDING_LIMIT: i64 = 64;

/// Why a preparation or a retry is refused.
#[derive(Clone, Copy, PartialEq, Eq, Structural, Debug)]
pub enum Refusal {
    /// The send identifier already names a text message or other metadata (409).
    SendConflict,
    /// Larger than the configured file limit (413).
    FileTooLarge,
    /// Too many preparations pending (429).
    TransferBusy,
    /// The quota cannot hold the file (409).
    QuotaExceeded,
    /// The disk cannot hold the file and the reserve (507).
    DiskFull,
}

/// Whether a file of `size` bytes fits the quota next to `used` reserved bytes.
pub open spec fn quota_allows(size: int, quota: int, used: int) -> bool {
    !(size > quota || used > quota - size)
}

/// The first refusal of a new send before the disk is consulted, in the service's order:
/// the identifier already used by a message, the file limit, the pending limit, the quota.
pub open spec fn new_send_refusal(message_exists: bool, size: i64, c: TransferConfig, pending: i64, used: i64) -> Option<Refusal> {
    if message_exists {
        Some(Refusal::SendConflict)
    } else if size > c.max_file_size {
        Some(Refusal::FileTooLarge)
    } else if pending >= PENDING_LIMIT {
        Some(Refusal::TransferBusy)
    } else if !quota_allows(size as int, c.quota as int, used as int) {
        Some(Refusal::QuotaExceeded)
    } else {
        None
    }
}

/// Decides a new send up to the disk check.
pub fn admit_new_send(message_exists: bool, size: i64, c: &TransferConfig, pending: i64, used: i64) -> (r: Option<Refusal>)
    ensures
        r == new_send_refusal(message_exists, size, *c, pending, used),
{
    if message_exists {
        Some(Refusal::SendConflict)
    } else if size > c.max_file_size {
        Some(Refusal::FileTooLarge)
    } else if pending >= PENDING_LIMIT {
        Some(Refusal::TransferBusy)
    } else if !fits_quota(size, c.quota, used) {
        Some(Refusal::QuotaExceeded)
    } else {
        None
    }
}

/// Whether a file of `size` bytes fits the quota next to `used` reserved bytes.
pub fn fits_quota(size: i64, quota: i64, used: i64) -> (r: bool)
    ensures
        r == quota_allows(size as int, quota as int, used as int),
{
    let size = size as i128;
    let quota = quota as i128;
    let used = used as i128;
    !(size > quota || used > quota - size)
}

/// The disk space a file of `size` bytes needs, reserve included (saturating).
pub open spec fn space_needed(size: i64, reserve: u64) -> int {
    let s = (size as u64) as int + reserve as int;
    if s > u64::MAX { u64::MAX as int } else { s }
}

/// Whether `available` bytes of free space hold a file of `size` bytes and the reserve.
pub fn disk_allows(size: i64, reserve: u64, available: u64) -> (r: bool)
    ensures
        r == (available >= space_needed(size, reserve)),
{
    let need = (size as u64).saturating_add(reserve);
    available >= need
}

/// Admitting a new send keeps the reserved bytes within the quota: the bytes already
/// reserved plus the new file never exceed the quota.
pub proof fn lemma_admission_respects_quota(message_exists: bool, size: i64, c: TransferConfig, pending: i64, used: i64)
    requires
        size >= 0,
        new_send_refusal(message_exists, size, c, pending, used) is None,
    ensures
        used + size <= c.quota,
        size <= c.max_file_size,
        pending < PENDING_LIMIT,
{
}

// ---------------------------------------------------------------------------------------
// The life cycle of a file send
// ---------------------------------------------------------------------------------------

/// The persistent state of a file send (and of each of its attempts).
#[derive(Clone, Copy, PartialEq, Eq, Structural, Debug)]
pub enum SendState {
    /// Space is reserved; no bytes may arrive yet.
    Prepared,
    /// One writer streams the bytes.
    Writing,
    /// The attempt ended without a commit; its entities are being removed.
    Cleaning,
    /// The attempt failed and its reservation is released; a successor may follow.
    Failed,
    /// The file is committed as a message.
    Success,
}

/// The state's name in the database.
pub open spec fn state_text(s: SendState) -> Seq<char> {
    match s {
        SendState::Prepared => "prepared"@,
        SendState::Writing => "writing"@,
        SendState::Cleaning => "cleaning"@,
        SendState::Failed => "failed"@,
        SendState::Success => "success"@,
    }
}

/// The state's name in the database.
pub fn state_name(s: SendState) -> (r: &'static str)
    ensures
        r@ == state_text(s),
{
    match s {
        SendState::Prepared => "prepared",
        SendState::Writing => "writing",
        SendState::Cleaning => "cleaning",
        SendState::Failed => "failed",
        SendState::Success => "success",
    }
}

/// Reads a state from its database name.
pub fn parse_state(text: &str) -> (r: Option<SendState>)
    ensures
        match r {
            Some(s) => state_text(s) == text@,
            None => forall|s: SendState| state_text(s) != text@,
        },
{
    let v = chars_of(text);
    let names = [
        (SendState::Prepared, "prepared"),
        (SendState::Writing, "writing"),
        (SendState::Cleaning, "cleaning"),
        (SendState::Failed, "failed"),
        (SendState::Success, "success"),
    ];
    let mut i: usize = 0;
    while i < 5
        invariant
            i <= 5,
            v@ == text@,
            names@ == seq![
                (SendState::Prepared, "prepared"),
                (SendState::Writing, "writing"),
                (SendState::Cleaning, "cleaning"),
                (SendState::Failed, "failed"),
                (SendState::Success, "success"),
            ],
            forall|k: int| 0 <= k < i ==> state_text(#[trigger] names@[k].0) != text@,
            forall|k: int| 0 <= k < 5 ==> state_text(#[trigger] names@[k].0) == names@[k].1@,
        decreases 5 - i,
    {
        let (s, n) = names[i];
        let w = chars_of(n);
        proof {
            assert(v@.subrange(0, v@.len() as int) =~= v@);
        }
        if slice_eq(&v, 0, v.len(), &w) {
            return Some(s);
        }
        i = i + 1;
    }
    proof {
        assert forall|s: SendState| state_text(s) != text@ by {
            match s {
                SendState::Prepared => assert(state_text(names@[0].0) != text@),
                SendState::Writing => assert(state_text(names@[1].0) != text@),
                SendState::Cleaning => assert(state_text(names@[2].0) != text@),
                SendState::Failed => assert(state_text(names@[3].0) != text@),
                SendState::Success => assert(state_text(names@[4].0) != text@),
            }
        }
    }
    None
}

/// What moves a file send from one state to another.
#[derive(Clone, Copy, PartialEq, Eq, Structural, Debug)]
pub enum SendEvent {
    /// An upload claims a live preparation.
    StartWrite,
    /// The received bytes are committed as a message.
    Commit,
    /// The writer ended without a commit.
    WriteFailed,
    /// A preparation passed its timeout unclaimed.
    Expire,
    /// Reconciliation found a writing send whose writer is gone.
    Abandon,
    /// Startup ends every unfinished attempt.
    Restart,
    /// Startup found an entity on disk for a send that did not succeed.
    Orphan,
    /// The entities are gone and the directory synced.
    Cleared,
    /// A successor attempt is prepared after a failure.
    Retry,
}

/// The state a send moves to on `e`, or `None` where the event does not apply (the
/// conditional update matches no row).
pub open spec fn next_state(s: SendState, e: SendEvent) -> Option<SendState> {
    match (s, e) {
        (SendState::Prepared, SendEvent::StartWrite) => Some(SendState::Writing),
        (SendState::Writing, SendEvent::Commit) => Some(SendState::Success),
        (SendState::Writing, SendEvent::WriteFailed) => Some(SendState::Cleaning),
        (SendState::Prepared, SendEvent::Expire) => Some(SendState::Cleaning),
        (SendState::Writing, SendEvent::Abandon) => Some(SendState::Cleaning),
        (SendState::Prepared, SendEvent::Restart) => Some(SendState::Cleaning),
        (SendState::Writing, SendEvent::Restart) => Some(SendState::Cleaning),
        (SendState::Success, SendEvent::Orphan) => None,
        (_, SendEvent::Orphan) => Some(SendState::Cleaning),
        (SendState::Cleaning, SendEvent::Cleared) => Some(SendState::Failed),
        (SendState::Failed, SendEvent::Retry) => Some(SendState::Prepared),
        _ => None,
    }
}

/// The transition of a send on `e`.
pub fn transition(s: SendState, e: SendEvent) -> (r: Option<SendState>)
    ensures
        r == next_state(s, e),
{
    match (s, e) {
        (SendState::Prepared, SendEvent::StartWrite) => Some(SendState::Writing),
        (SendState::Writing, SendEvent::Commit) => Some(SendState::Success),
        (SendState::Writing, SendEvent::WriteFailed) => Some(SendState::Cleaning),
        (SendState::Prepared, SendEvent::Expire) => Some(SendState::Cleaning),
        (SendState::Writing, SendEvent::Abandon) => Some(SendState::Cleaning),
        (SendState::Prepared, SendEvent::Restart) => Some(SendState::Cleaning),
        (SendState::Writing, SendEvent::Restart) => Some(SendState::Cleaning),
        (SendState::Success, SendEvent::Orphan) => None,
        (_, SendEvent::Orphan) => Some(SendState::Cleaning),
        (SendState::Cleaning, SendEvent::Cleared) => Some(SendState::Failed),
        (SendState::Failed, SendEvent::Retry) => Some(SendState::Prepared),
        _ => None,
    }
}

/// Whether a send keeps its bytes reserved against the quota after event `e`, given
/// whether it held them before: cleanup releases them (the reserved count drops to 0),
/// a successor attempt takes them again (the reserved count becomes the file size), and
/// every other event leaves the reserved count as it was.
pub open spec fn reserved_after(held: bool, e: SendEvent) -> bool {
    match e {
        SendEvent::Cleared => false,
        SendEvent::Retry => true,
        _ => held,
    }
}

/// How the state of a send and its reservation fit together: a live or committed send
/// holds its bytes, a failed one has released them, and a cleaning one may be either
/// (an orphan found after a failure has nothing reserved).
pub open spec fn reservation_fits(s: SendState, held: bool) -> bool {
    match s {
        SendState::Prepared | SendState::Writing | SendState::Success => held,
        SendState::Failed => !held,
        SendState::Cleaning => true,
    }
}

/// A committed send is final: no event changes it, so a committed file is never
/// rewritten, cleaned up or released.
pub proof fn lemma_success_is_final(e: SendEvent)
    ensures
        next_state(SendState::Success, e) is None,
{
}

/// Only a write that was in progress commits.
pub proof fn lemma_commit_needs_writer(s: SendState, e: SendEvent)
    requires
        next_state(s, e) == Some(SendState::Success),
    ensures
        s == SendState::Writing && e == SendEvent::Commit,
{
}

/// A reservation is released only by the end of cleanup and taken only by a successor
/// attempt, and every transition keeps the state and the reservation fitting together.
pub proof fn lemma_reservation_changes(s: SendState, held: bool, e: SendEvent, t: SendState)
    requires
        next_state(s, e) == Some(t),
        reservation_fits(s, held),
    ensures
        held && !reserved_after(held, e) ==> s == SendState::Cleaning && e == SendEvent::Cleared,
        !held && reserved_after(held, e) ==> s == SendState::Failed && e == SendEvent::Retry,
        reservation_fits(t, reserved_after(held, e)),
{
}

// ---------------------------------------------------------------------------------------
// Repeated preparations, successors and uploads
// ---------------------------------------------------------------------------------------

/// How a repeated preparation of a known send is answered.
#[derive(Clone, Copy, PartialEq, Eq, Structural, Debug)]
pub enum Replay {
    /// Report this state (and the committed message when it is `Success`).
    State(SendState),
    /// The identifiers or metadata do not match the stored send (409 send_conflict).
    Conflict,
}

/// Answers a preparation whose send identifier is already stored: other metadata or an
/// unknown attempt conflict; a failed or cleaning attempt reports its own state; an attempt
/// that is no longer current conflicts; otherwise the send's state is reported.
pub fn replay_prepare(same_metadata: bool, attempt_state: Option<SendState>, send_state: SendState) -> (r: Replay)
    ensures
        r == if !same_metadata {
            Replay::Conflict
        } else {
            match attempt_state {
                None => Replay::Conflict,
                Some(a) => if a == SendState::Failed || a == SendState::Cleaning {
                    Replay::State(a)
                } else if a != send_state {
                    Replay::Conflict
                } else {
                    Replay::State(send_state)
                },
            }
        },
{
    if !same_metadata {
        return Replay::Conflict;
    }
    match attempt_state {
        None => Replay::Conflict,
        Some(a) => if a == SendState::Failed || a == SendState::Cleaning {
            Replay::State(a)
        } else if a != send_state {
            Replay::Conflict
        } else {
            Replay::State(send_state)
        },
    }
}

/// Why the identifiers of a successor request are refused.
#[derive(Clone, Copy, PartialEq, Eq, Structural, Debug)]
pub enum SuccessorIdError {
    /// An identifier is not a UUID (422 invalid_id).
    InvalidId,
    /// The new attempt is the predecessor itself (409 attempt_conflict).
    SameAttempt,
}

/// The identifiers of a successor request in canonical form.
pub struct SuccessorIds {
    pub send_id: String,
    pub attempt_id: String,
    pub previous_attempt_id: String,
}

/// The first rule a successor request's identifiers break: all three must be UUIDs, and
/// the new attempt must differ from its predecessor (compared in canonical form).
pub open spec fn successor_ids_error(send_id: Seq<char>, attempt_id: Seq<char>, previous: Seq<char>) -> Option<SuccessorIdError> {
    if spec_canonical_uuid(send_id) is None || spec_canonical_uuid(attempt_id) is None
        || spec_canonical_uuid(previous) is None {
        Some(SuccessorIdError::InvalidId)
    } else if spec_canonical_uuid(attempt_id) == spec_canonical_uuid(previous) {
        Some(SuccessorIdError::SameAttempt)
    } else {
        None
    }
}

/// Validates the identifiers of a successor request, keeping them in canonical form.
pub fn validate_successor(send_id: &str, attempt_id: &str, previous: &str) -> (r: Result<SuccessorIds, SuccessorIdError>)
    ensures
        match r {
            Ok(ids) => {
                &&& successor_ids_error(send_id@, attempt_id@, previous@) is None
                &&& spec_canonical_uuid(send_id@) == Some(ids.send_id@)
                &&& spec_canonical_uuid(attempt_id@) == Some(ids.attempt_id@)
                &&& spec_canonical_uuid(previous@) == Some(ids.previous_attempt_id@)
            },
            Err(e) => successor_ids_error(send_id@, attempt_id@, previous@) == Some(e),
        },
{
    let send = canonical_uuid(send_id);
    let attempt = canonical_uuid(attempt_id);
    let prev = canonical_uuid(previous);
    match (send, attempt, prev) {
        (Some(s), Some(a), Some(p)) => {
            if a == p {
                Err(SuccessorIdError::SameAttempt)
            } else {
                Ok(SuccessorIds { send_id: s, attempt_id: a, previous_attempt_id: p })
            }
        },
        _ => Err(SuccessorIdError::InvalidId),
    }
}

/// The stored send as a successor request sees it.
#[derive(Clone, Copy, PartialEq, Eq, Structural, Debug)]
pub struct SendRow {
    pub state: SendState,
    /// Whether the stored current attempt is the one the request names as predecessor.
    pub current_is_previous: bool,
    pub size: i64,
}

/// How a request for a successor attempt is answered before the disk check.
#[derive(Clone, Copy, PartialEq, Eq, Structural, Debug)]
pub enum SuccessorStep {
    NotFound,
    /// The send already succeeded: answer with its message.
    Committed,
    /// The new attempt identifier is already known for this send: report its state.
    Replayed(SendState),
    /// The predecessor is not current, or the identifier is taken (409 attempt_conflict).
    Conflict,
    /// The current attempt is still live (409 attempt_busy).
    Busy,
    Refused(Refusal),
    /// Everything but the disk and the attempt identifier allows the successor.
    CheckSpace,
}

pub open spec fn successor_spec(row: Option<SendRow>, replay: Option<SendState>, c: TransferConfig, used: i64) -> SuccessorStep {
    match row {
        None => SuccessorStep::NotFound,
        Some(r) => if r.state == SendState::Success {
            SuccessorStep::Committed
        } else if replay is Some {
            SuccessorStep::Replayed(replay->0)
        } else if !r.current_is_previous {
            SuccessorStep::Conflict
        } else if r.state != SendState::Failed {
            SuccessorStep::Busy
        } else if r.size > c.max_file_size {
            SuccessorStep::Refused(Refusal::FileTooLarge)
        } else if !quota_allows(r.size as int, c.quota as int, used as int) {
            SuccessorStep::Refused(Refusal::QuotaExceeded)
        } else {
            SuccessorStep::CheckSpace
        },
    }
}

/// Decides a successor request from the stored send, the state of the new attempt
/// identifier if this send already knows it, and the reserved bytes.
pub fn successor_step(row: Option<SendRow>, replay: Option<SendState>, c: &TransferConfig, used: i64) -> (r: SuccessorStep)
    ensures
        r == successor_spec(row, replay, *c, used),
{
    match row {
        None => SuccessorStep::NotFound,
        Some(r) => if r.state == SendState::Success {
            SuccessorStep::Committed
        } else if let Some(s) = replay {
            SuccessorStep::Replayed(s)
        } else if !r.current_is_previous {
            SuccessorStep::Conflict
        } else if r.state != SendState::Failed {
            SuccessorStep::Busy
        } else if r.size > c.max_file_size {
            SuccessorStep::Refused(Refusal::FileTooLarge)
        } else if !fits_quota(r.size, c.quota, used) {
            SuccessorStep::Refused(Refusal::QuotaExceeded)
        } else {
            SuccessorStep::CheckSpace
        },
    }
}

/// Repeating a successor request is answered by the attempt it names: once the send knows
/// the new attempt (`replay` is its state), the request reports that state whatever the
/// send's current attempt, state, size or the reserved bytes, unless the send is
/// committed. Only a request naming an attempt the send does not know can conflict, be
/// busy or be refused, and a committed send always answers with its message.
pub proof fn lemma_known_attempt_replays(row: SendRow, replay: Option<SendState>, c: TransferConfig, used: i64)
    ensures
        replay matches Some(s) ==> (row.state != SendState::Success
            ==> successor_spec(Some(row), replay, c, used) == SuccessorStep::Replayed(s)),
        successor_spec(Some(row), replay, c, used) matches SuccessorStep::Replayed(s)
            ==> replay == Some(s) && row.state != SendState::Success,
        (successor_spec(Some(row), replay, c, used) is Conflict || successor_spec(Some(row), replay, c, used) is Busy
            || successor_spec(Some(row), replay, c, used) is Refused || successor_spec(Some(row), replay, c, used) is CheckSpace)
            ==> replay is None,
        row.state == SendState::Success ==> successor_spec(Some(row), replay, c, used) == SuccessorStep::Committed,
{
}

/// How an upload request is answered before any byte is read.
#[derive(Clone, Copy, PartialEq, Eq, Structural, Debug)]
pub enum WriteGate {
    NotFound,
    /// The named attempt already committed: answer with its message.
    Committed,
    /// The send committed under another attempt (409 attempt_conflict).
    AttemptConflict,
    /// The attempt is not current or not prepared (409 attempt_busy).
    AttemptBusy,
    /// Try to claim the preparation.
    Claim,
}

/// How an upload is answered from the stored send (its state, whether its current attempt
/// is the one the request names, and when it was prepared) and the preparation cutoff
/// (see [`prepare_cutoff`]): a preparation at or before the cutoff has expired and is never
/// claimed, even before reconciliation has run.
pub open spec fn write_gate_spec(row: Option<(SendState, bool, i64)>, cutoff: i64) -> WriteGate {
    match row {
        None => WriteGate::NotFound,
        Some((s, same, prepared_at)) => if s == SendState::Success {
            if same { WriteGate::Committed } else { WriteGate::AttemptConflict }
        } else if !same || s != SendState::Prepared || prepared_at <= cutoff {
            WriteGate::AttemptBusy
        } else {
            WriteGate::Claim
        },
    }
}

/// Decides an upload before any byte is read.
pub fn write_gate(row: Option<(SendState, bool, i64)>, cutoff: i64) -> (r: WriteGate)
    ensures
        r == write_gate_spec(row, cutoff),
{
    match row {
        None => WriteGate::NotFound,
        Some((s, same, prepared_at)) => if s == SendState::Success {
            if same {
                WriteGate::Committed
            } else {
                WriteGate::AttemptConflict
            }
        } else if !same || s != SendState::Prepared || prepared_at <= cutoff {
            WriteGate::AttemptBusy
        } else {
            WriteGate::Claim
        },
    }
}

/// An expired preparation never starts writing: only a current, prepared attempt whose
/// preparation is younger than the cutoff is claimed.
pub proof fn lemma_expired_preparation_never_writes(row: Option<(SendState, bool, i64)>, cutoff: i64)
    ensures
        write_gate_spec(row, cutoff) == WriteGate::Claim
            <==> (row matches Some((s, same, p)) && s == SendState::Prepared && same && p > cutoff),
{
}

/// What becomes of an upload whose receiving or committing failed.
#[derive(Clone, Copy, PartialEq, Eq, Structural, Debug)]
pub enum FailedUpload {
    /// The send is committed after all: answer with its message.
    Committed,
    /// The outcome cannot be known: keep the entity and the reservation for startup.
    Preserve,
    /// The commit never happened: end the attempt and clean up.
    Abandon,
}

/// How a failed upload is settled from whether its commit was already issued and the
/// state read back afterwards (`None`: the read failed; `Some(None)`: unknown text). A
/// send read back as committed is answered with its message. Once the commit was
/// issued, anything else keeps the entity, since the commit may still take effect; before
/// it, only a failed read keeps it, and otherwise the attempt is abandoned.
pub open spec fn failed_upload_spec(commit_started: bool, read: Option<Option<SendState>>) -> FailedUpload {
    if read == Some(Some(SendState::Success)) {
        FailedUpload::Committed
    } else if commit_started || read is None {
        FailedUpload::Preserve
    } else {
        FailedUpload::Abandon
    }
}

/// Settles a failed upload.
pub fn failed_upload(commit_started: bool, read: Option<Option<SendState>>) -> (r: FailedUpload)
    ensures
        r == failed_upload_spec(commit_started, read),
{
    match read {
        Some(Some(SendState::Success)) => FailedUpload::Committed,
        None => FailedUpload::Preserve,
        Some(_) => if commit_started {
            FailedUpload::Preserve
        } else {
            FailedUpload::Abandon
        },
    }
}

/// A failed upload never removes a committed file: once the commit was issued, the
/// entity is only given up when the send reads back as committed, and it is abandoned
/// only when the commit was never issued and the send reads back, not as committed.
pub proof fn lemma_failed_upload_keeps_commits(commit_started: bool, read: Option<Option<SendState>>)
    ensures
        failed_upload_spec(commit_started, read) == FailedUpload::Abandon
            ==> !commit_started && read is Some && read != Some(Some(SendState::Success)),
{
}

/// The range of clock readings and timeouts that the arithmetic allows: a reading the
/// throttle computes with (see [`crate::throttle::valid_time`]) and a timeout of at most
/// 2^61 seconds, so that `now - timeout` stays inside `i64`.
pub open spec fn valid_span(now: i64, timeout_secs: u64) -> bool {
    crate::throttle::valid_time(now) && timeout_secs <= 0x2000_0000_0000_0000
}

/// Whether a clock reading and a timeout are inside the range the arithmetic allows.
pub fn span_usable(now: i64, timeout_secs: u64) -> (r: bool)
    ensures
        r == valid_span(now, timeout_secs),
{
    crate::throttle::MIN_TIME <= now && now <= crate::throttle::MAX_TIME && timeout_secs <= 0x2000_0000_0000_0000
}

/// The preparation time at or before which an unclaimed preparation has expired.
pub fn prepare_cutoff(now: i64, prepare_timeout_secs: u64) -> (r: i64)
    requires
        valid_span(now, prepare_timeout_secs),
    ensures
        r == now - prepare_timeout_secs,
{
    now - prepare_timeout_secs as i64
}

/// Why a stream is refused while it arrives.
#[derive(Clone, Copy, PartialEq, Eq, Structural, Debug)]
pub enum StreamError {
    /// More bytes than the declared size (or an impossible count).
    SizeMismatch,
}

/// Counts one received chunk: refused when the running count would overflow or exceed the
/// declared size.
pub fn accept_chunk(received: i64, chunk_len: usize, size: i64) -> (r: Result<i64, StreamError>)
    requires
        chunk_len <= i64::MAX,
    ensures
        match r {
            Ok(n) => accept_step(received as int, chunk_len as nat, size as int) == Some(n as int),
            Err(_) => accept_step(received as int, chunk_len as nat, size as int) is None,
        },
{
    match received.checked_add(chunk_len as i64) {
        Some(n) => if n > size {
            Err(StreamError::SizeMismatch)
        } else {
            Ok(n)
        },
        None => Err(StreamError::SizeMismatch),
    }
}

/// Whether a finished stream delivered exactly the declared size.
pub fn stream_complete(received: i64, size: i64) -> (r: bool)
    ensures
        r == (received == size),
{
    received == size
}

/// The count after accepting `len` more bytes, as [`accept_chunk`] computes it, or `None`
/// when the chunk is refused.
pub open spec fn accept_step(received: int, len: nat, size: int) -> Option<int> {
    if received + len > i64::MAX || received + len > size {
        None
    } else {
        Some(received + len)
    }
}

/// The count after a stream of chunks, or `None` once a chunk is refused.
pub open spec fn accepted(chunks: Seq<nat>, size: int) -> Option<int>
    decreases chunks.len(),
{
    if chunks.len() == 0 {
        Some(0)
    } else {
        match accepted(chunks.drop_last(), size) {
            Some(n) => accept_step(n, chunks.last(), size),
            None => None,
        }
    }
}

/// The sum of the chunk lengths.
pub open spec fn total(chunks: Seq<nat>) -> int
    decreases chunks.len(),
{
    if chunks.len() == 0 {
        0
    } else {
        total(chunks.drop_last()) + chunks.last()
    }
}

/// A stream that the counter accepts chunk by chunk has received exactly the sum of its
/// chunks and never more than the declared size; once it is complete it holds exactly
/// the declared size.
pub proof fn lemma_stream_accounting(chunks: Seq<nat>, size: int)
    requires
        size >= 0,
        accepted(chunks, size) is Some,
    ensures
        accepted(chunks, size) == Some(total(chunks)),
        total(chunks) <= size,
        total(chunks) <= i64::MAX,
    decreases chunks.len(),
{
    if chunks.len() > 0 {
        lemma_stream_accounting(chunks.drop_last(), size);
    }
}

// ---------------------------------------------------------------------------------------
// Reconciliation and recovery
// ---------------------------------------------------------------------------------------

/// What reconciliation does with one send it found unfinished.
#[derive(Clone, Copy, PartialEq, Eq, Structural, Debug)]
pub enum ReconcileAction {
    /// Leave it: a writer of this process still owns it (or it is not unfinished).
    Skip,
    /// Move it to `Cleaning` with the given event, then clean up if the update applied.
    MarkCleaning(SendEvent),
    /// Clean up its entities now.
    Cleanup,
}

/// What reconciliation does with one unfinished send: one still owned by a live writer is
/// left alone; a writing send whose writer is gone is abandoned; a preparation prepared at
/// or before `cutoff` (see [`prepare_cutoff`]) expires while a younger one is left alone;
/// a cleaning send is cleaned up.
pub open spec fn reconcile_spec(state: SendState, writer_active: bool, prepared_at: i64, cutoff: i64) -> ReconcileAction {
    match state {
        SendState::Cleaning => if writer_active { ReconcileAction::Skip } else { ReconcileAction::Cleanup },
        SendState::Writing => if writer_active {
            ReconcileAction::Skip
        } else {
            ReconcileAction::MarkCleaning(SendEvent::Abandon)
        },
        SendState::Prepared => if prepared_at <= cutoff {
            ReconcileAction::MarkCleaning(SendEvent::Expire)
        } else {
            ReconcileAction::Skip
        },
        _ => ReconcileAction::Skip,
    }
}

/// Decides what reconciliation does with one unfinished send, prepared at `prepared_at`,
/// when preparations at or before `cutoff` have expired.
pub fn reconcile_action(state: SendState, writer_active: bool, prepared_at: i64, cutoff: i64) -> (r: ReconcileAction)
    ensures
        r == reconcile_spec(state, writer_active, prepared_at, cutoff),
{
    match state {
        SendState::Cleaning => if writer_active {
            ReconcileAction::Skip
        } else {
            ReconcileAction::Cleanup
        },
        SendState::Writing => if writer_active {
            ReconcileAction::Skip
        } else {
            ReconcileAction::MarkCleaning(SendEvent::Abandon)
        },
        SendState::Prepared => if prepared_at <= cutoff {
            ReconcileAction::MarkCleaning(SendEvent::Expire)
        } else {
            ReconcileAction::Skip
        },
        _ => ReconcileAction::Skip,
    }
}

/// Reconciliation never touches a send that a live writer owns, a committed one or a
/// preparation that has not expired, and every state change it makes is a transition of
/// the life cycle into `Cleaning`.
pub proof fn lemma_reconcile_spares_writers_and_commits(state: SendState, writer_active: bool, prepared_at: i64, cutoff: i64)
    ensures
        (writer_active && state != SendState::Prepared) ==> reconcile_spec(state, writer_active, prepared_at, cutoff) == ReconcileAction::Skip,
        state == SendState::Success ==> reconcile_spec(state, writer_active, prepared_at, cutoff) == ReconcileAction::Skip,
        (state == SendState::Prepared && prepared_at > cutoff) ==> reconcile_spec(state, writer_active, prepared_at, cutoff) == ReconcileAction::Skip,
        reconcile_spec(state, writer_active, prepared_at, cutoff) matches ReconcileAction::MarkCleaning(e)
            ==> next_state(state, e) == Some(SendState::Cleaning),
{
}

/// Whether a reconciliation scan starts again from the first send: the page after the
/// cursor came back empty and there was a cursor, so the scan has passed the last send.
pub fn scan_restarts(page_empty: bool, cursor: &Option<String>) -> (r: bool)
    ensures
        r == (page_empty && cursor is Some),
{
    page_empty && cursor.is_some()
}

/// The cursor the next reconciliation scan continues after: the last send of this page,
/// or the cursor it was read after when the page is empty.
pub fn next_cursor(page_last: Option<String>, cursor: Option<String>) -> (r: Option<String>)
    ensures
        r == (if page_last is Some { page_last } else { cursor }),
{
    match page_last {
        Some(last) => Some(last),
        None => cursor,
    }
}

/// The result of removing one entity file.
#[derive(Clone, Copy, PartialEq, Eq, Structural, Debug)]
pub enum Removal {
    /// The file was removed; `synced` tells whether the directory was synced afterwards.
    Removed { synced: bool },
    /// There was no such file.
    Missing,
    /// The removal failed.
    Failed,
}

pub open spec fn removal_ok(r: Removal) -> bool {
    match r {
        Removal::Removed { synced } => synced,
        Removal::Missing => true,
        Removal::Failed => false,
    }
}

/// Whether cleanup may release the reservation: both entity files (partial and final) are
/// gone with their removals synced, and the directory was synced once more.
pub fn cleanup_cleared(partial: Removal, complete: Removal, directory_synced: bool) -> (r: bool)
    ensures
        r == (removal_ok(partial) && removal_ok(complete) && directory_synced),
{
    let a = match partial {
        Removal::Removed { synced } => synced,
        Removal::Missing => true,
        Removal::Failed => false,
    };
    let b = match complete {
        Removal::Removed { synced } => synced,
        Removal::Missing => true,
        Removal::Failed => false,
    };
    a && b && directory_synced
}

/// The state of the two storage roots.
#[derive(Clone, Copy, PartialEq, Eq, Structural, Debug)]
pub enum Status {
    Uninitialized,
    Initialized,
    StorageError,
}

/// The status of the storage roots: both roots empty is uninitialized; otherwise the
/// instance identifier stored in each root and the one recorded in the database must all
/// be present and equal, or the storage is in error.
pub fn storage_status(
    both_empty: bool,
    database_root_id: Option<&str>,
    files_root_id: Option<&str>,
    recorded_id: Option<&str>,
) -> (r: Status)
    ensures
        r == if both_empty {
            Status::Uninitialized
        } else {
            match (database_root_id, files_root_id, recorded_id) {
                (Some(a), Some(b), Some(c)) => if a@ == b@ && b@ == c@ {
                    Status::Initialized
                } else {
                    Status::StorageError
                },
                _ => Status::StorageError,
            }
        },
{
    if both_empty {
        return Status::Uninitialized;
    }
    match (database_root_id, files_root_id, recorded_id) {
        (Some(a), Some(b), Some(c)) => {
            let x = chars_of(a);
            let y = chars_of(b);
            let z = chars_of(c);
            proof {
                assert(x@.subrange(0, x@.len() as int) =~= x@);
                assert(y@.subrange(0, y@.len() as int) =~= y@);
            }
            if slice_eq(&x, 0, x.len(), &y) && slice_eq(&y, 0, y.len(), &z) {
                Status::Initialized
            } else {
                Status::StorageError
            }
        },
        _ => Status::StorageError,
    }
}

/// The status text reported by `GET /api/status`.
pub fn status_name(s: Status) -> (r: &'static str)
    ensures
        r@ == match s {
            Status::Uninitialized => "uninitialized"@,
            Status::Initialized => "initialized"@,
            Status::StorageError => "storage_error"@,
        },
{
    match s {
        Status::Uninitialized => "uninitialized",
        Status::Initialized => "initialized",
        Status::StorageError => "storage_error",
    }
}

/// What startup recovery does for a storage status.
#[derive(Clone, Copy, PartialEq, Eq, Structural, Debug)]
pub enum RecoveryGate {
    Recover,
    /// Nothing is stored yet; there is nothing to recover.
    Nothing,
    /// Storage is unavailable: refuse to start serving uploads.
    Refuse,
}

pub fn recovery_gate(s: Status) -> (r: RecoveryGate)
    ensures
        r == match s {
            Status::Initialized => RecoveryGate::Recover,
            Status::Uninitialized => RecoveryGate::Nothing,
            Status::StorageError => RecoveryGate::Refuse,
        },
{
    match s {
        Status::Initialized => RecoveryGate::Recover,
        Status::Uninitialized => RecoveryGate::Nothing,
        Status::StorageError => RecoveryGate::Refuse,
    }
}

/// The suffix of an entity still being written.
pub open spec fn partial_suffix() -> Seq<char> {
    ".partial"@
}

/// The name of the entity being written for `file_id`.
pub fn partial_name(file_id: &str) -> (r: String)
    ensures
        r@ == file_id@ + partial_suffix(),
{
    let mut r = file_id.to_owned();
    r.append(".partial");
    r
}

/// Whether a directory entry name ends with the `.partial` suffix.
pub open spec fn is_partial_entry(name: Seq<char>) -> bool {
    let n = partial_suffix().len();
    name.len() >= n && name.subrange(name.len() - n, name.len() as int) == partial_suffix()
}

/// The identifier part of a directory entry name: the name without a `.partial` suffix.
pub open spec fn entry_stem(name: Seq<char>) -> Seq<char> {
    if is_partial_entry(name) {
        name.subrange(0, name.len() - partial_suffix().len())
    } else {
        name
    }
}

/// The file identifier of a directory entry the service manages: the name (without a
/// `.partial` suffix) must be exactly a UUID in canonical form; other entries are left
/// alone.
pub open spec fn managed_id(name: Seq<char>) -> Option<Seq<char>> {
    let stem = entry_stem(name);
    match spec_canonical_uuid(stem) {
        Some(id) => if id == stem { Some(id) } else { None },
        None => None,
    }
}

/// The file identifier a directory entry stands for, if recovery manages it, and whether
/// the entry is the partial entity (`.partial`) rather than the final one.
pub fn managed_entity(name: &str) -> (r: Option<(String, bool)>)
    ensures
        match r {
            Some((id, partial)) => managed_id(name@) == Some(id@) && partial == is_partial_entry(name@),
            None => managed_id(name@) is None,
        },
{
    let v = chars_of(name);
    let suffix = chars_of(".partial");
    proof {
        reveal_strlit(".partial");
    }
    let n = v.len();
    let partial = n >= 8 && slice_eq(&v, n - 8, n, &suffix);
    let stem = if partial {
        string_of(&v, 0, n - 8)
    } else {
        proof {
            assert(v@.subrange(0, n as int) =~= v@);
        }
        string_of(&v, 0, n)
    };
    match canonical_uuid(stem.as_str()) {
        Some(id) => {
            let a = chars_of(id.as_str());
            let b = chars_of(stem.as_str());
            proof {
                assert(a@.subrange(0, a@.len() as int) =~= a@);
            }
            if slice_eq(&a, 0, a.len(), &b) {
                Some((id, partial))
            } else {
                None
            }
        },
        None => None,
    }
}

/// The names the service gives its entities are the names recovery adopts: both the
/// final and the partial entity of a canonical file identifier map back to it.
pub proof fn lemma_entity_names_round_trip(file_id: Seq<char>)
    requires
        spec_canonical_uuid(file_id) == Some(file_id),
        !(file_id.len() >= 8 && file_id.subrange(file_id.len() - 8, file_id.len() as int) == partial_suffix()),
    ensures
        managed_id(file_id) == Some(file_id),
        managed_id(file_id + partial_suffix()) == Some(file_id),
{
    reveal_strlit(".partial");
    let n = file_id + partial_suffix();
    assert(n.subrange(n.len() - 8, n.len() as int) =~= partial_suffix());
    assert(n.subrange(0, n.len() - 8) =~= file_id);
}

/// What recovery does with a managed entity found on disk.
#[derive(Clone, Copy, PartialEq, Eq, Structural, Debug)]
pub enum EntryAction {
    /// The send committed: keep the entity and its bytes.
    Keep,
    /// The send committed but its final entity's size differs from the record: keep it
    /// and record a storage fault.
    RecordFault,
    /// The send did not commit: end it and clean up through the database.
    Reclaim,
    /// No send owns it: remove the file directly.
    Remove,
}

/// What recovery does with a managed entity, from the state of the send that owns it,
/// whether it is a partial entity and whether its size is the recorded size.
pub open spec fn entry_spec(owner: Option<SendState>, partial: bool, size_matches: bool) -> EntryAction {
    match owner {
        Some(SendState::Success) => if partial || size_matches { EntryAction::Keep } else { EntryAction::RecordFault },
        Some(_) => EntryAction::Reclaim,
        None => EntryAction::Remove,
    }
}

/// Decides a managed entity from the state of the send that owns it, whether it is a
/// partial entity, and whether its size is the recorded size. Only the final entity of a
/// committed send is held to the recorded size; a leftover partial entity of a committed
/// send is left untouched.
pub fn entry_action(owner: Option<SendState>, partial: bool, size_matches: bool) -> (r: EntryAction)
    ensures
        r == entry_spec(owner, partial, size_matches),
{
    match owner {
        Some(SendState::Success) => if partial || size_matches {
            EntryAction::Keep
        } else {
            EntryAction::RecordFault
        },
        Some(_) => EntryAction::Reclaim,
        None => EntryAction::Remove,
    }
}

/// The state a send is left in when startup ends every unfinished attempt.
pub open spec fn restarted(s: SendState) -> SendState {
    match next_state(s, SendEvent::Restart) {
        Some(t) => t,
        None => s,
    }
}

/// The state a send is left in once reconciliation has cleaned up every cleaning send
/// (startup recovery has no live writers).
pub open spec fn drained(s: SendState) -> SendState {
    match next_state(s, SendEvent::Cleared) {
        Some(t) => t,
        None => s,
    }
}

/// The state startup recovery leaves a send in when it succeeds.
pub open spec fn recovered(s: SendState) -> SendState {
    drained(restarted(s))
}

/// Startup recovery settles every send: afterwards no send is prepared, writing or
/// cleaning, a committed send is still committed, a failed one still failed, and running
/// recovery again changes nothing. Of the entities it finds, those of committed sends are
/// never reclaimed or removed, and a partial leftover of a committed send is left alone.
pub proof fn lemma_recovery_settles(rows: Seq<SendState>)
    ensures
        forall|i: int| 0 <= i < rows.len() ==> {
            let t = #[trigger] recovered(rows[i]);
            &&& t != SendState::Prepared && t != SendState::Writing && t != SendState::Cleaning
            &&& rows[i] == SendState::Success ==> t == SendState::Success
            &&& rows[i] == SendState::Failed ==> t == SendState::Failed
            &&& recovered(t) == t
        },
        rows.map_values(|s: SendState| recovered(s)).map_values(|s: SendState| recovered(s))
            == rows.map_values(|s: SendState| recovered(s)),
        forall|partial: bool, size_matches: bool|
            #![trigger entry_spec(Some(SendState::Success), partial, size_matches)]
            {
                &&& entry_spec(Some(SendState::Success), partial, size_matches) != EntryAction::Reclaim
                &&& entry_spec(Some(SendState::Success), partial, size_matches) != EntryAction::Remove
                &&& partial ==> entry_spec(Some(SendState::Success), partial, size_matches) == EntryAction::Keep
            },
{
    assert(rows.map_values(|s: SendState| recovered(s)).map_values(|s: SendState| recovered(s))
        =~= rows.map_values(|s: SendState| recovered(s)));
}

// ---------------------------------------------------------------------------------------
// The recorded condition of committed files
// ---------------------------------------------------------------------------------------

/// The condition of a committed file as its message reports it.
#[derive(Clone, Copy, PartialEq, Eq, Structural, Debug)]
pub enum FileState {
    /// The entity is there and downloadable.
    Available,
    /// The entity was found missing or damaged.
    StorageError,
    /// The file is being deleted.
    Deleting,
    /// The file is deleted.
    Deleted,
}

/// The file state's name in the database and in messages.
pub open spec fn file_state_text(s: FileState) -> Seq<char> {
    match s {
        FileState::Available => "available"@,
        FileState::StorageError => "storage_error"@,
        FileState::Deleting => "deleting"@,
        FileState::Deleted => "deleted"@,
    }
}

/// The file state's name in the database and in messages.
pub fn file_state_name(s: FileState) -> (r: &'static str)
    ensures
        r@ == file_state_text(s),
{
    match s {
        FileState::Available => "available",
        FileState::StorageError => "storage_error",
        FileState::Deleting => "deleting",
        FileState::Deleted => "deleted",
    }
}

/// Reads a file state from its name.
pub fn parse_file_state(text: &str) -> (r: Option<FileState>)
    ensures
        match r {
            Some(s) => file_state_text(s) == text@,
            None => forall|s: FileState| file_state_text(s) != text@,
        },
{
    let v = chars_of(text);
    let names = [
        (FileState::Available, "available"),
        (FileState::StorageError, "storage_error"),
        (FileState::Deleting, "deleting"),
        (FileState::Deleted, "deleted"),
    ];
    let mut i: usize = 0;
    while i < 4
        invariant
            i <= 4,
            v@ == text@,
            names@ == seq![
                (FileState::Available, "available"),
                (FileState::StorageError, "storage_error"),
                (FileState::Deleting, "deleting"),
                (FileState::Deleted, "deleted"),
            ],
            forall|k: int| 0 <= k < i ==> file_state_text(#[trigger] names@[k].0) != text@,
            forall|k: int| 0 <= k < 4 ==> file_state_text(#[trigger] names@[k].0) == names@[k].1@,
        decreases 4 - i,
    {
        let (s, n) = names[i];
        let w = chars_of(n);
        proof {
            assert(v@.subrange(0, v@.len() as int) =~= v@);
        }
        if slice_eq(&v, 0, v.len(), &w) {
            return Some(s);
        }
        i = i + 1;
    }
    proof {
        assert forall|s: FileState| file_state_text(s) != text@ by {
            match s {
                FileState::Available => assert(file_state_text(names@[0].0) != text@),
                FileState::StorageError => assert(file_state_text(names@[1].0) != text@),
                FileState::Deleting => assert(file_state_text(names@[2].0) != text@),
                FileState::Deleted => assert(file_state_text(names@[3].0) != text@),
            }
        }
    }
    None
}

/// How a download of a committed file starts from its recorded state.
#[derive(Clone, Copy, PartialEq, Eq, Structural, Debug)]
pub enum StoredFile {
    /// Open the entity.
    Open,
    /// A storage fault is recorded: refuse with a storage error, even if the entity came
    /// back (a recorded fault is never repaired by itself).
    Broken,
    /// The file is being deleted or is deleted: not found.
    Gone,
}

/// Decides how a download starts from the file's recorded state.
pub fn stored_file(state: FileState) -> (r: StoredFile)
    ensures
        r == match state {
            FileState::Available => StoredFile::Open,
            FileState::StorageError => StoredFile::Broken,
            _ => StoredFile::Gone,
        },
{
    match state {
        FileState::Available => StoredFile::Open,
        FileState::StorageError => StoredFile::Broken,
        _ => StoredFile::Gone,
    }
}

/// How a download answers once the entity of a committed file turns out missing or
/// damaged.
#[derive(Clone, Copy, PartialEq, Eq, Structural, Debug)]
pub enum EntityFault {
    /// The storage roots themselves are not in order (a missing mount, say): answer that
    /// the service is unavailable and record nothing about the file.
    Unavailable,
    /// The storage is in order, so this file is broken: record the fault and answer with
    /// a storage error.
    Record,
}

/// What a download found wrong with the entity of a committed file.
#[derive(Clone, Copy, PartialEq, Eq, Structural, Debug)]
pub enum EntityCheck {
    /// There is no entity.
    Missing,
    /// The entity is not a regular file or not of the recorded size.
    Damaged,
    /// The entity could not be inspected or opened for another reason (permissions, say).
    Inaccessible,
}

/// Decides a missing, damaged or inaccessible entity from the status of the storage
/// roots: only a missing or damaged entity in storage that is in order is a fault of the
/// file; anything else leaves the file as recorded and answers that the service is
/// unavailable.
pub fn entity_fault(storage: Status, check: EntityCheck) -> (r: EntityFault)
    ensures
        r == if storage == Status::Initialized && check != EntityCheck::Inaccessible {
            EntityFault::Record
        } else {
            EntityFault::Unavailable
        },
{
    match (storage, check) {
        (_, EntityCheck::Inaccessible) => EntityFault::Unavailable,
        (Status::Initialized, _) => EntityFault::Record,
        _ => EntityFault::Unavailable,
    }
}

/// The recorded state and version after a storage fault is found: an available file
/// becomes `storage_error` one version later; a file in any other state is left as it is.
pub open spec fn fault_spec(state: FileState, version: int) -> Option<(FileState, int)> {
    if state == FileState::Available {
        Some((FileState::StorageError, version + 1))
    } else {
        None
    }
}

/// The new recorded state and version when a storage fault is found, or `None` when the
/// record stays as it is.
pub fn record_fault(state: FileState, version: i64) -> (r: Option<(FileState, i64)>)
    requires
        version < i64::MAX,
    ensures
        match r {
            Some((s, v)) => fault_spec(state, version as int) == Some((s, v as int)),
            None => fault_spec(state, version as int) is None,
        },
{
    if state == FileState::Available {
        Some((FileState::StorageError, version + 1))
    } else {
        None
    }
}

/// Finding the same fault again changes nothing: once a fault is recorded, a second
/// detection leaves the state and the version as they are.
pub proof fn lemma_fault_recorded_once(state: FileState, version: int)
    ensures
        fault_spec(state, version) matches Some((s, v)) ==> fault_spec(s, v) is None,
{
}

/// The delay before the next background reconciliation: back to 5 seconds after a
/// success, doubled up to 60 seconds after a failure.
pub open spec fn delay_after(delay: int, succeeded: bool) -> int {
    if succeeded {
        5
    } else if delay * 2 < 60 {
        delay * 2
    } else {
        60
    }
}

/// The delay before the next background reconciliation.
pub fn next_delay(delay: u64, succeeded: bool) -> (r: u64)
    requires
        delay <= u64::MAX / 2,
    ensures
        r == delay_after(delay as int, succeeded),
{
    if succeeded {
        5
    } else if delay * 2 < 60 {
        delay * 2
    } else {
        60
    }
}

/// Starting from 5 seconds, the reconciliation delay always stays between 5 and 60.
pub proof fn lemma_delay_bounded(delay: int, succeeded: bool)
    requires
        5 <= delay <= 60,
    ensures
        5 <= delay_after(delay, succeeded) <= 60,
{
}

} // verus!
