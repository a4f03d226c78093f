//! The answers of refused requests: each problem the service reports has one HTTP status,
//! one machine-readable code and one message.
use crate::files::{PrepareError, Refusal, SuccessorStep, WriteGate};
use crate::messages::SendError;
use vstd::prelude::*;

verus! {

/// A problem the service reports instead of a result.
#[derive(Clone, Copy, PartialEq, Eq, Structural, Debug)]
pub enum Problem {
    /// A state-changing request without the configured origin.
    OriginRejected,
    /// A login or logout carrying an Authorization header.
    UnsupportedAuth,
    /// A body that is not declared as JSON.
    JsonRequired,
    /// A send body over 512 KiB.
    SendBodyTooLarge,
    /// A login body over 8 KiB.
    LoginBodyTooLarge,
    /// A preparation or successor body over 8 KiB.
    PrepareBodyTooLarge,
    /// A send body that is not the expected JSON object.
    SendJsonInvalid,
    /// A login body that is not the expected JSON object.
    LoginJsonInvalid,
    /// A preparation body that is not the expected JSON object.
    PrepareJsonInvalid,
    /// A successor body that is not the expected JSON object.
    SuccessorJsonInvalid,
    /// A send identifier that is no UUID.
    InvalidSendId,
    /// Message text over 65,536 UTF-8 bytes.
    TextTooLarge,
    /// Message text made of White_Space only.
    EmptyText,
    /// A trimmed source label outside 1 to 64 characters.
    InvalidSourceLabel,
    /// A text send identifier already used for another payload.
    SendConflict,
    /// A text send identifier already used by a file send.
    SendUsedByFile,
    /// No committed message for a send identifier yet.
    SendResultNotFound,
    /// A history query outside the accepted shapes.
    HistoryQueryInvalid,
    /// A file-list query outside the accepted shapes.
    FilesQueryInvalid,
    /// No valid session.
    SessionInvalid,
    /// Credentials that do not match the account.
    InvalidCredentials,
    /// A login refused by throttling or the verification limit.
    LoginLimited,
    /// A request from the trusted proxy without a client address.
    InvalidSource,
    /// Storage unavailable or a transaction failed.
    Unavailable,
    /// Too many preparations at once.
    PreparationsBusy,
    /// A preparation body that did not arrive in time.
    PrepareTimeout,
    /// A send or attempt identifier that is no UUID.
    InvalidId,
    /// Unacceptable file metadata.
    InvalidMetadata,
    /// A file over the configured limit.
    FileTooLarge,
    /// Too many pending preparations.
    PendingBusy,
    /// Not enough free disk space.
    DiskFull,
    /// Not enough quota.
    QuotaExceeded,
    /// A file send identifier already used otherwise.
    SendIdUsed,
    /// No file send with this identifier.
    SendNotFound,
    /// An attempt that is not the current one.
    AttemptConflict,
    /// A successor while the current attempt is still live.
    AttemptStillActive,
    /// An upload to an attempt that cannot be written.
    AttemptNotWritable,
    /// Too many uploads at once.
    UploadsBusy,
    /// A failed upload whose cleanup did not finish.
    CleanupPending,
    /// An upload that ended without a commit.
    UploadFailed,
    /// An upload whose outcome could not be determined.
    TransferUnknown,
    /// No committed file with this identifier.
    FileNotFound,
    /// A file record with an impossible size.
    FileRecordBroken,
    /// A stored entity that does not match its record.
    FileStorageBroken,
    /// Too many downloads at once.
    DownloadsBusy,
}

/// The answer to a problem: HTTP status, code and message.
pub struct Answer {
    pub status: u16,
    pub code: &'static str,
    pub message: &'static str,
}

/// The status, code and message of each problem.
pub open spec fn answer_spec(p: Problem) -> (u16, Seq<char>, Seq<char>) {
    match p {
        Problem::OriginRejected => (403, "origin_rejected"@, "请求来源不被允许"@),
        Problem::UnsupportedAuth => (400, "unsupported_auth"@, "请求认证方式不被支持"@),
        Problem::JsonRequired => (400, "json_required"@, "请求必须使用 JSON"@),
        Problem::SendBodyTooLarge => (413, "body_too_large"@, "发送请求过大"@),
        Problem::LoginBodyTooLarge => (413, "body_too_large"@, "登录请求过大"@),
        Problem::PrepareBodyTooLarge => (413, "body_too_large"@, "请求过大"@),
        Problem::SendJsonInvalid => (400, "invalid_json"@, "发送格式无效"@),
        Problem::LoginJsonInvalid => (400, "invalid_json"@, "登录请求格式无效"@),
        Problem::PrepareJsonInvalid => (400, "invalid_json"@, "无效元数据"@),
        Problem::SuccessorJsonInvalid => (400, "invalid_json"@, "无效尝试元数据"@),
        Problem::InvalidSendId => (422, "invalid_send_id"@, "发送标识无效"@),
        Problem::TextTooLarge => (413, "text_too_large"@, "正文不能超过 65,536 UTF-8 字节"@),
        Problem::EmptyText => (422, "empty_text"@, "正文不能全为空白"@),
        Problem::InvalidSourceLabel => (422, "invalid_source_label"@, "来源标签须为 1–64 个字符"@),
        Problem::SendConflict => (409, "send_conflict"@, "发送标识已用于其他载荷，请检查历史"@),
        Problem::SendUsedByFile => (409, "send_conflict"@, "发送标识已用于文件"@),
        Problem::SendResultNotFound => (404, "send_not_found"@, "暂未找到发送结果，不代表在途发送不会保存"@),
        Problem::HistoryQueryInvalid => (400, "invalid_query"@, "limit 须为 1–100，before 须为正整数，after 须为非负整数消息 ID；两种边界互斥"@),
        Problem::FilesQueryInvalid => (400, "invalid_query"@, "limit 须为 1–100，before 须为正整数消息 ID"@),
        Problem::SessionInvalid => (401, "session_invalid"@, "请重新登录"@),
        Problem::InvalidCredentials => (401, "invalid_credentials"@, "用户名或密码错误"@),
        Problem::LoginLimited => (429, "login_limited"@, "登录请求过多，请稍后重试"@),
        Problem::InvalidSource => (400, "invalid_source"@, "请求来源无效"@),
        Problem::Unavailable => (503, "unavailable"@, "应用暂不可用，请稍后重试"@),
        Problem::PreparationsBusy => (429, "transfer_busy"@, "准备请求过多"@),
        Problem::PrepareTimeout => (408, "request_timeout"@, "准备请求超时"@),
        Problem::InvalidId => (422, "invalid_id"@, "无效标识"@),
        Problem::InvalidMetadata => (422, "invalid_metadata"@, "无效文件元数据或文件过大"@),
        Problem::FileTooLarge => (413, "file_too_large"@, "文件超过上限"@),
        Problem::PendingBusy => (429, "transfer_busy"@, "未开始的传输过多"@),
        Problem::DiskFull => (507, "disk_full"@, "磁盘空间不足"@),
        Problem::QuotaExceeded => (409, "quota_exceeded"@, "文件空间不足"@),
        Problem::SendIdUsed => (409, "send_conflict"@, "发送标识已使用"@),
        Problem::SendNotFound => (404, "send_not_found"@, "发送不存在"@),
        Problem::AttemptConflict => (409, "attempt_conflict"@, "传输尝试不匹配"@),
        Problem::AttemptStillActive => (409, "attempt_busy"@, "尝试仍在进行或清理中"@),
        Problem::AttemptNotWritable => (409, "attempt_busy"@, "尝试不可写"@),
        Problem::UploadsBusy => (429, "transfer_busy"@, "传输名额已满"@),
        Problem::CleanupPending => (503, "cleanup_pending"@, "清理未完成，空间仍被占用"@),
        Problem::UploadFailed => (422, "upload_failed"@, "文件未提交或存储不可用"@),
        Problem::TransferUnknown => (503, "transfer_unknown"@, "传输结果未确认"@),
        Problem::FileNotFound => (404, "file_not_found"@, "文件不可用"@),
        Problem::FileRecordBroken => (503, "storage_error"@, "文件记录异常"@),
        Problem::FileStorageBroken => (503, "storage_error"@, "文件存储异常"@),
        Problem::DownloadsBusy => (429, "transfer_busy"@, "下载名额已满"@),
    }
}

/// The answer to `p`.
pub fn answer(p: Problem) -> (r: Answer)
    ensures
        (r.status, r.code@, r.message@) == answer_spec(p),
{
    match p {
        Problem::OriginRejected => Answer { status: 403, code: "origin_rejected", message: "请求来源不被允许" },
        Problem::UnsupportedAuth => Answer { status: 400, code: "unsupported_auth", message: "请求认证方式不被支持" },
        Problem::JsonRequired => Answer { status: 400, code: "json_required", message: "请求必须使用 JSON" },
        Problem::SendBodyTooLarge => Answer { status: 413, code: "body_too_large", message: "发送请求过大" },
        Problem::LoginBodyTooLarge => Answer { status: 413, code: "body_too_large", message: "登录请求过大" },
        Problem::PrepareBodyTooLarge => Answer { status: 413, code: "body_too_large", message: "请求过大" },
        Problem::SendJsonInvalid => Answer { status: 400, code: "invalid_json", message: "发送格式无效" },
        Problem::LoginJsonInvalid => Answer { status: 400, code: "invalid_json", message: "登录请求格式无效" },
        Problem::PrepareJsonInvalid => Answer { status: 400, code: "invalid_json", message: "无效元数据" },
        Problem::SuccessorJsonInvalid => Answer { status: 400, code: "invalid_json", message: "无效尝试元数据" },
        Problem::InvalidSendId => Answer { status: 422, code: "invalid_send_id", message: "发送标识无效" },
        Problem::TextTooLarge => Answer { status: 413, code: "text_too_large", message: "正文不能超过 65,536 UTF-8 字节" },
        Problem::EmptyText => Answer { status: 422, code: "empty_text", message: "正文不能全为空白" },
        Problem::InvalidSourceLabel => Answer { status: 422, code: "invalid_source_label", message: "来源标签须为 1–64 个字符" },
        Problem::SendConflict => Answer { status: 409, code: "send_conflict", message: "发送标识已用于其他载荷，请检查历史" },
        Problem::SendUsedByFile => Answer { status: 409, code: "send_conflict", message: "发送标识已用于文件" },
        Problem::SendResultNotFound => Answer { status: 404, code: "send_not_found", message: "暂未找到发送结果，不代表在途发送不会保存" },
        Problem::HistoryQueryInvalid => Answer { status: 400, code: "invalid_query", message: "limit 须为 1–100，before 须为正整数，after 须为非负整数消息 ID；两种边界互斥" },
        Problem::FilesQueryInvalid => Answer { status: 400, code: "invalid_query", message: "limit 须为 1–100，before 须为正整数消息 ID" },
        Problem::SessionInvalid => Answer { status: 401, code: "session_invalid", message: "请重新登录" },
        Problem::InvalidCredentials => Answer { status: 401, code: "invalid_credentials", message: "用户名或密码错误" },
        Problem::LoginLimited => Answer { status: 429, code: "login_limited", message: "登录请求过多，请稍后重试" },
        Problem::InvalidSource => Answer { status: 400, code: "invalid_source", message: "请求来源无效" },
        Problem::Unavailable => Answer { status: 503, code: "unavailable", message: "应用暂不可用，请稍后重试" },
        Problem::PreparationsBusy => Answer { status: 429, code: "transfer_busy", message: "准备请求过多" },
        Problem::PrepareTimeout => Answer { status: 408, code: "request_timeout", message: "准备请求超时" },
        Problem::InvalidId => Answer { status: 422, code: "invalid_id", message: "无效标识" },
        Problem::InvalidMetadata => Answer { status: 422, code: "invalid_metadata", message: "无效文件元数据或文件过大" },
        Problem::FileTooLarge => Answer { status: 413, code: "file_too_large", message: "文件超过上限" },
        Problem::PendingBusy => Answer { status: 429, code: "transfer_busy", message: "未开始的传输过多" },
        Problem::DiskFull => Answer { status: 507, code: "disk_full", message: "磁盘空间不足" },
        Problem::QuotaExceeded => Answer { status: 409, code: "quota_exceeded", message: "文件空间不足" },
        Problem::SendIdUsed => Answer { status: 409, code: "send_conflict", message: "发送标识已使用" },
        Problem::SendNotFound => Answer { status: 404, code: "send_not_found", message: "发送不存在" },
        Problem::AttemptConflict => Answer { status: 409, code: "attempt_conflict", message: "传输尝试不匹配" },
        Problem::AttemptStillActive => Answer { status: 409, code: "attempt_busy", message: "尝试仍在进行或清理中" },
        Problem::AttemptNotWritable => Answer { status: 409, code: "attempt_busy", message: "尝试不可写" },
        Problem::UploadsBusy => Answer { status: 429, code: "transfer_busy", message: "传输名额已满" },
        Problem::CleanupPending => Answer { status: 503, code: "cleanup_pending", message: "清理未完成，空间仍被占用" },
        Problem::UploadFailed => Answer { status: 422, code: "upload_failed", message: "文件未提交或存储不可用" },
        Problem::TransferUnknown => Answer { status: 503, code: "transfer_unknown", message: "传输结果未确认" },
        Problem::FileNotFound => Answer { status: 404, code: "file_not_found", message: "文件不可用" },
        Problem::FileRecordBroken => Answer { status: 503, code: "storage_error", message: "文件记录异常" },
        Problem::FileStorageBroken => Answer { status: 503, code: "storage_error", message: "文件存储异常" },
        Problem::DownloadsBusy => Answer { status: 429, code: "transfer_busy", message: "下载名额已满" },
    }
}

/// Every problem is answered with a client or server error status.
pub proof fn lemma_problems_are_errors(p: Problem)
    ensures
        400 <= answer_spec(p).0 <= 599,
{
}

/// The error codes of the answers are told apart by their length, first and last
/// character.
proof fn lemma_codes_distinct()
    ensures
        "invalid_json"@.len() == 12 && "invalid_json"@[0] == 'i' && "invalid_json"@[11] == 'n',
        "invalid_query"@.len() == 13 && "invalid_query"@[0] == 'i' && "invalid_query"@[12] == 'y',
        "invalid_source"@.len() == 14 && "invalid_source"@[0] == 'i' && "invalid_source"@[13] == 'e',
        "json_required"@.len() == 13 && "json_required"@[0] == 'j' && "json_required"@[12] == 'd',
        "unsupported_auth"@.len() == 16 && "unsupported_auth"@[0] == 'u' && "unsupported_auth"@[15] == 'h',
        "invalid_credentials"@.len() == 19 && "invalid_credentials"@[0] == 'i' && "invalid_credentials"@[18] == 's',
        "session_invalid"@.len() == 15 && "session_invalid"@[0] == 's' && "session_invalid"@[14] == 'd',
        "origin_rejected"@.len() == 15 && "origin_rejected"@[0] == 'o' && "origin_rejected"@[14] == 'd',
        "file_not_found"@.len() == 14 && "file_not_found"@[0] == 'f' && "file_not_found"@[13] == 'd',
        "send_not_found"@.len() == 14 && "send_not_found"@[0] == 's' && "send_not_found"@[13] == 'd',
        "request_timeout"@.len() == 15 && "request_timeout"@[0] == 'r' && "request_timeout"@[14] == 't',
        "attempt_busy"@.len() == 12 && "attempt_busy"@[0] == 'a' && "attempt_busy"@[11] == 'y',
        "attempt_conflict"@.len() == 16 && "attempt_conflict"@[0] == 'a' && "attempt_conflict"@[15] == 't',
        "quota_exceeded"@.len() == 14 && "quota_exceeded"@[0] == 'q' && "quota_exceeded"@[13] == 'd',
        "send_conflict"@.len() == 13 && "send_conflict"@[0] == 's' && "send_conflict"@[12] == 't',
        "body_too_large"@.len() == 14 && "body_too_large"@[0] == 'b' && "body_too_large"@[13] == 'e',
        "file_too_large"@.len() == 14 && "file_too_large"@[0] == 'f' && "file_too_large"@[13] == 'e',
        "text_too_large"@.len() == 14 && "text_too_large"@[0] == 't' && "text_too_large"@[13] == 'e',
        "empty_text"@.len() == 10 && "empty_text"@[0] == 'e' && "empty_text"@[9] == 't',
        "invalid_id"@.len() == 10 && "invalid_id"@[0] == 'i' && "invalid_id"@[9] == 'd',
        "invalid_metadata"@.len() == 16 && "invalid_metadata"@[0] == 'i' && "invalid_metadata"@[15] == 'a',
        "invalid_send_id"@.len() == 15 && "invalid_send_id"@[0] == 'i' && "invalid_send_id"@[14] == 'd',
        "invalid_source_label"@.len() == 20 && "invalid_source_label"@[0] == 'i' && "invalid_source_label"@[19] == 'l',
        "upload_failed"@.len() == 13 && "upload_failed"@[0] == 'u' && "upload_failed"@[12] == 'd',
        "login_limited"@.len() == 13 && "login_limited"@[0] == 'l' && "login_limited"@[12] == 'd',
        "transfer_busy"@.len() == 13 && "transfer_busy"@[0] == 't' && "transfer_busy"@[12] == 'y',
        "cleanup_pending"@.len() == 15 && "cleanup_pending"@[0] == 'c' && "cleanup_pending"@[14] == 'g',
        "storage_error"@.len() == 13 && "storage_error"@[0] == 's' && "storage_error"@[12] == 'r',
        "transfer_unknown"@.len() == 16 && "transfer_unknown"@[0] == 't' && "transfer_unknown"@[15] == 'n',
        "unavailable"@.len() == 11 && "unavailable"@[0] == 'u' && "unavailable"@[10] == 'e',
        "disk_full"@.len() == 9 && "disk_full"@[0] == 'd' && "disk_full"@[8] == 'l',
{
    reveal_strlit("invalid_json");
    reveal_strlit("invalid_query");
    reveal_strlit("invalid_source");
    reveal_strlit("json_required");
    reveal_strlit("unsupported_auth");
    reveal_strlit("invalid_credentials");
    reveal_strlit("session_invalid");
    reveal_strlit("origin_rejected");
    reveal_strlit("file_not_found");
    reveal_strlit("send_not_found");
    reveal_strlit("request_timeout");
    reveal_strlit("attempt_busy");
    reveal_strlit("attempt_conflict");
    reveal_strlit("quota_exceeded");
    reveal_strlit("send_conflict");
    reveal_strlit("body_too_large");
    reveal_strlit("file_too_large");
    reveal_strlit("text_too_large");
    reveal_strlit("empty_text");
    reveal_strlit("invalid_id");
    reveal_strlit("invalid_metadata");
    reveal_strlit("invalid_send_id");
    reveal_strlit("invalid_source_label");
    reveal_strlit("upload_failed");
    reveal_strlit("login_limited");
    reveal_strlit("transfer_busy");
    reveal_strlit("cleanup_pending");
    reveal_strlit("storage_error");
    reveal_strlit("transfer_unknown");
    reveal_strlit("unavailable");
    reveal_strlit("disk_full");
}

/// The HTTP status of an answer follows from its error code, whichever problem reports
/// it: two answers with the same code have the same status. The 401 answers are exactly
/// those coded `session_invalid` or `invalid_credentials` (no usable session, wrong
/// credentials); the 429 answers are exactly those coded `login_limited` or
/// `transfer_busy` (throttled or overloaded); the 403 answers are exactly the rejected
/// origins; `quota_exceeded` is a 409 and `disk_full` a 507.
pub proof fn lemma_codes_fix_status(p: Problem, q: Problem)
    ensures
        answer_spec(p).1 == answer_spec(q).1 ==> answer_spec(p).0 == answer_spec(q).0,
        answer_spec(p).0 == 401 <==> (answer_spec(p).1 == "session_invalid"@ || answer_spec(p).1 == "invalid_credentials"@),
        answer_spec(p).0 == 429 <==> (answer_spec(p).1 == "login_limited"@ || answer_spec(p).1 == "transfer_busy"@),
        answer_spec(p).0 == 403 <==> answer_spec(p).1 == "origin_rejected"@,
        answer_spec(p).1 == "quota_exceeded"@ ==> answer_spec(p).0 == 409,
        answer_spec(p).1 == "disk_full"@ ==> answer_spec(p).0 == 507,
{
    lemma_codes_distinct();
}

/// Each admission refusal is reported under a code of its own: two different refusals
/// never share a code, so a quota refusal is never reported as a full disk or the other
/// way round. The quota refusal is answered 409 `quota_exceeded`, and `disk_full` (507)
/// is the answer of the disk refusal alone.
pub proof fn lemma_refusals_keep_their_codes(r: Refusal, t: Refusal)
    ensures
        r != t ==> answer_spec(refusal_spec(r)).1 != answer_spec(refusal_spec(t)).1,
        answer_spec(refusal_spec(r)).1 == "quota_exceeded"@ <==> r == Refusal::QuotaExceeded,
        answer_spec(refusal_spec(r)).1 == "disk_full"@ <==> r == Refusal::DiskFull,
        r == Refusal::QuotaExceeded ==> answer_spec(refusal_spec(r)).0 == 409,
        r == Refusal::DiskFull ==> answer_spec(refusal_spec(r)).0 == 507,
{
    lemma_codes_distinct();
}

/// The problem a refused text send reports.
pub fn send_problem(e: SendError) -> (r: Problem)
    ensures
        r == match e {
            SendError::InvalidSendId => Problem::InvalidSendId,
            SendError::TextTooLarge => Problem::TextTooLarge,
            SendError::EmptyText => Problem::EmptyText,
            SendError::InvalidSourceLabel => Problem::InvalidSourceLabel,
        },
{
    match e {
        SendError::InvalidSendId => Problem::InvalidSendId,
        SendError::TextTooLarge => Problem::TextTooLarge,
        SendError::EmptyText => Problem::EmptyText,
        SendError::InvalidSourceLabel => Problem::InvalidSourceLabel,
    }
}

/// The problem a refused preparation reports.
pub fn prepare_problem(e: PrepareError) -> (r: Problem)
    ensures
        r == match e {
            PrepareError::InvalidId => Problem::InvalidId,
            PrepareError::InvalidMetadata => Problem::InvalidMetadata,
        },
{
    match e {
        PrepareError::InvalidId => Problem::InvalidId,
        PrepareError::InvalidMetadata => Problem::InvalidMetadata,
    }
}

pub open spec fn refusal_spec(r: Refusal) -> Problem {
    match r {
        Refusal::SendConflict => Problem::SendIdUsed,
        Refusal::FileTooLarge => Problem::FileTooLarge,
        Refusal::TransferBusy => Problem::PendingBusy,
        Refusal::QuotaExceeded => Problem::QuotaExceeded,
        Refusal::DiskFull => Problem::DiskFull,
    }
}

/// The problem an admission refusal reports.
pub fn refusal_problem(r: Refusal) -> (p: Problem)
    ensures
        p == refusal_spec(r),
{
    match r {
        Refusal::SendConflict => Problem::SendIdUsed,
        Refusal::FileTooLarge => Problem::FileTooLarge,
        Refusal::TransferBusy => Problem::PendingBusy,
        Refusal::QuotaExceeded => Problem::QuotaExceeded,
        Refusal::DiskFull => Problem::DiskFull,
    }
}

/// The problem a successor request reports, if its step is a refusal.
pub fn successor_problem(s: SuccessorStep) -> (r: Option<Problem>)
    ensures
        r == match s {
            SuccessorStep::NotFound => Some(Problem::SendNotFound),
            SuccessorStep::Conflict => Some(Problem::AttemptConflict),
            SuccessorStep::Busy => Some(Problem::AttemptStillActive),
            SuccessorStep::Refused(x) => Some(refusal_spec(x)),
            _ => None,
        },
{
    match s {
        SuccessorStep::NotFound => Some(Problem::SendNotFound),
        SuccessorStep::Conflict => Some(Problem::AttemptConflict),
        SuccessorStep::Busy => Some(Problem::AttemptStillActive),
        SuccessorStep::Refused(x) => Some(refusal_problem(x)),
        _ => None,
    }
}

/// The problem an upload reports before reading bytes, if its gate is a refusal.
pub fn write_problem(g: WriteGate) -> (r: Option<Problem>)
    ensures
        r == match g {
            WriteGate::NotFound => Some(Problem::SendNotFound),
            WriteGate::AttemptConflict => Some(Problem::AttemptConflict),
            WriteGate::AttemptBusy => Some(Problem::AttemptNotWritable),
            _ => None,
        },
{
    match g {
        WriteGate::NotFound => Some(Problem::SendNotFound),
        WriteGate::AttemptConflict => Some(Problem::AttemptConflict),
        WriteGate::AttemptBusy => Some(Problem::AttemptNotWritable),
        _ => None,
    }
}

/// The first problem of a login or logout request before its body is read: the origin
/// is checked first, then a forbidden Authorization header, then (for a login) the JSON
/// content type.
pub fn session_write_problem(origin_ok: bool, has_authorization: bool, needs_json: bool, json: bool) -> (r: Option<Problem>)
    ensures
        r == if !origin_ok {
            Some(Problem::OriginRejected)
        } else if has_authorization {
            Some(Problem::UnsupportedAuth)
        } else if needs_json && !json {
            Some(Problem::JsonRequired)
        } else {
            None
        },
{
    if !origin_ok {
        Some(Problem::OriginRejected)
    } else if has_authorization {
        Some(Problem::UnsupportedAuth)
    } else if needs_json && !json {
        Some(Problem::JsonRequired)
    } else {
        None
    }
}

} // verus!
