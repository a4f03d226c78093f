//! Text messages: what a send request must satisfy, how a stored record answers a
//! repeated send, and how history, incremental and file-list pages are cut from query rows.
use crate::chars::{
    all_space, chars_of, eq_ascii_case, eq_ignore_ascii_case, is_all_space, lemma_split_first,
    slice_eq, split_on, string_of, trim, trim_space,
};
use crate::ids::{canonical_uuid, spec_canonical_uuid};
use vstd::prelude::*;

verus! {

broadcast use vstd::string::group_string_axioms;

/// The largest message text, in UTF-8 bytes.
pub const MAX_TEXT_BYTES: usize = 65_536;

/// The most characters a trimmed source label may have.
pub const MAX_LABEL_CHARS: usize = 64;

/// The page size when a query gives none.
pub const DEFAULT_PAGE: u32 = 50;

/// The largest page size a query may ask for.
pub const MAX_PAGE: u32 = 100;

/// Whether a message carries text or a committed file.
#[derive(Clone, Copy, PartialEq, Eq, Structural, Debug)]
pub enum MessageKind {
    Text,
    File,
}

/// The kind's name in the database and in responses.
pub open spec fn kind_text(k: MessageKind) -> Seq<char> {
    match k {
        MessageKind::Text => "TEXT"@,
        MessageKind::File => "FILE"@,
    }
}

/// The kind's name in the database and in responses.
pub fn kind_name(k: MessageKind) -> (r: &'static str)
    ensures
        r@ == kind_text(k),
{
    match k {
        MessageKind::Text => "TEXT",
        MessageKind::File => "FILE",
    }
}

/// Reads a kind from its name.
pub fn parse_kind(text: &str) -> (r: Option<MessageKind>)
    ensures
        match r {
            Some(k) => kind_text(k) == text@,
            None => text@ != "TEXT"@ && text@ != "FILE"@,
        },
{
    let v = chars_of(text);
    let t = chars_of("TEXT");
    let f = chars_of("FILE");
    proof {
        assert(v@.subrange(0, v@.len() as int) =~= v@);
    }
    if slice_eq(&v, 0, v.len(), &t) {
        Some(MessageKind::Text)
    } else if slice_eq(&v, 0, v.len(), &f) {
        Some(MessageKind::File)
    } else {
        None
    }
}

/// One stored message as the message projection reads it.
pub struct Message {
    pub id: i64,
    pub send_id: String,
    pub text: Option<String>,
    pub source_label: String,
    pub created_at: String,
    pub kind: MessageKind,
    pub file_id: Option<String>,
    pub file_name: Option<String>,
    pub file_size: Option<i64>,
    pub file_mime: Option<String>,
    pub file_state: Option<String>,
    pub state_version: Option<String>,
}

/// Why a text send is refused before anything is stored.
#[derive(Clone, Copy, PartialEq, Eq, Structural, Debug)]
pub enum SendError {
    InvalidSendId,
    TextTooLarge,
    EmptyText,
    InvalidSourceLabel,
}

/// A send request that passed validation: canonical identifier, verbatim text and
/// trimmed source label.
pub struct SendInput {
    pub send_id: String,
    pub text: String,
    pub source_label: String,
}

/// The number of UTF-8 bytes of `t`.
pub open spec fn utf8_len(t: Seq<char>) -> nat {
    vstd::utf8::encode_utf8(t).len()
}

/// Whether a source label, once trimmed, has an accepted number of characters.
pub open spec fn label_ok(label: Seq<char>) -> bool {
    1 <= trim(label).len() <= MAX_LABEL_CHARS
}

/// The first rule that a send request breaks, checked in the order the service checks them.
pub open spec fn send_error(send_id: Seq<char>, text: Seq<char>, label: Seq<char>) -> Option<SendError> {
    if spec_canonical_uuid(send_id) is None {
        Some(SendError::InvalidSendId)
    } else if utf8_len(text) > MAX_TEXT_BYTES {
        Some(SendError::TextTooLarge)
    } else if all_space(text) {
        Some(SendError::EmptyText)
    } else if !label_ok(label) {
        Some(SendError::InvalidSourceLabel)
    } else {
        None
    }
}

/// Validates a text send: the identifier must be a UUID (kept in canonical form), the
/// text at most 65,536 UTF-8 bytes and not all White_Space, and the trimmed label 1 to 64
/// characters.
pub fn validate_send(send_id: &str, text: &str, source_label: &str) -> (r: Result<SendInput, SendError>)
    ensures
        match r {
            Ok(input) => {
                &&& send_error(send_id@, text@, source_label@) is None
                &&& spec_canonical_uuid(send_id@) == Some(input.send_id@)
                &&& input.text@ == text@
                &&& input.source_label@ == trim(source_label@)
            },
            Err(e) => send_error(send_id@, text@, source_label@) == Some(e),
        },
{
    let label = trim_space(source_label);
    let id = match canonical_uuid(send_id) {
        Some(id) => id,
        None => return Err(SendError::InvalidSendId),
    };
    if text.as_bytes().len() > MAX_TEXT_BYTES {
        return Err(SendError::TextTooLarge);
    }
    let chars = chars_of(text);
    if is_all_space(&chars) {
        return Err(SendError::EmptyText);
    }
    let count = chars_of(label.as_str()).len();
    if count < 1 || count > MAX_LABEL_CHARS {
        return Err(SendError::InvalidSourceLabel);
    }
    Ok(SendInput { send_id: id, text: text.to_owned(), source_label: label })
}

/// How a send is answered once its record is read back inside the write transaction.
#[derive(Clone, Copy, PartialEq, Eq, Structural, Debug)]
pub enum SendOutcome {
    /// The record was inserted by this request (201).
    Created,
    /// The same payload was already stored under this identifier (200).
    Replayed,
    /// The identifier is already used for another payload (409).
    Conflict,
    /// The identifier is already used by a file send (409 send_conflict); nothing is kept.
    UsedByFile,
}

/// Whether a stored record carries exactly the payload of `input`.
pub open spec fn same_payload(stored: Message, input: SendInput) -> bool {
    &&& stored.kind == MessageKind::Text
    &&& stored.text matches Some(t) && t@ == input.text@
    &&& stored.source_label@ == input.source_label@
}

/// Decides the answer to a send from whether the insert took effect, whether a file send
/// already uses the identifier, and the record stored under the identifier. A file send's
/// identifier is never taken by a text message.
pub fn send_outcome(inserted: bool, used_by_file: bool, stored: &Message, input: &SendInput) -> (r: SendOutcome)
    ensures
        r == if used_by_file {
            SendOutcome::UsedByFile
        } else if !same_payload(*stored, *input) {
            SendOutcome::Conflict
        } else if inserted {
            SendOutcome::Created
        } else {
            SendOutcome::Replayed
        },
{
    if used_by_file {
        return SendOutcome::UsedByFile;
    }
    let same_text = match &stored.text {
        Some(t) => *t == input.text,
        None => false,
    };
    if stored.kind != MessageKind::Text || !same_text || !(stored.source_label == input.source_label) {
        SendOutcome::Conflict
    } else if inserted {
        SendOutcome::Created
    } else {
        SendOutcome::Replayed
    }
}

/// Whether a Content-Type value names JSON: its media type (the part before the first `;`,
/// trimmed) equals `application/json` up to ASCII case.
pub open spec fn is_json_media_type(v: Seq<char>) -> bool {
    eq_ignore_ascii_case(trim(split_on(v, ';')[0]), "application/json"@)
}

/// Whether a request's Content-Type header (absent, or not visible ASCII, as `None`) names
/// JSON.
pub fn json_content_type(value: Option<&str>) -> (r: bool)
    ensures
        r == (value matches Some(v) && is_json_media_type(v@)),
{
    let v = match value {
        Some(v) => v,
        None => return false,
    };
    let chars = chars_of(v);
    let mut i: usize = 0;
    while i < chars.len() && chars[i] != ';'
        invariant
            i <= chars.len(),
            forall|k: int| 0 <= k < i ==> #[trigger] chars@[k] != ';',
        decreases chars.len() - i,
    {
        i = i + 1;
    }
    proof {
        lemma_split_first(chars@, ';', i as int);
    }
    let media = string_of(&chars, 0, i);
    let trimmed = trim_space(media.as_str());
    proof {
        assert(chars@.subrange(0, i as int) =~= chars@.take(i as int));
    }
    eq_ascii_case(&chars_of(trimmed.as_str()), &chars_of("application/json"))
}

/// Sending the same payload again under the same identifier is answered as a replay, and
/// any other payload under that identifier as a conflict: a record stored from `first`
/// answers a later request `again` by whether the two carry the same text and label.
pub proof fn lemma_send_replay(stored: Message, first: SendInput, again: SendInput)
    requires
        stored.kind == MessageKind::Text,
        stored.text matches Some(t) && t@ == first.text@,
        stored.source_label@ == first.source_label@,
    ensures
        same_payload(stored, again) <==> (again.text@ == first.text@ && again.source_label@ == first.source_label@),
{
}

// ---------------------------------------------------------------------------------------
// Paging
// ---------------------------------------------------------------------------------------

/// The shape of a history request.
#[derive(Clone, Copy, PartialEq, Eq, Structural, Debug)]
pub enum HistoryQuery {
    /// The newest page, which also fixes the incremental cursor.
    Newest { limit: u32 },
    /// The page just before an exclusive boundary.
    Before { limit: u32, before: i64 },
    /// The earliest page after an exclusive boundary.
    After { limit: u32, after: i64 },
}

/// Whether a page size is accepted (absent means the default).
pub open spec fn limit_ok(limit: Option<u32>) -> bool {
    let l = match limit { Some(l) => l, None => DEFAULT_PAGE };
    1 <= l <= MAX_PAGE
}

pub open spec fn limit_or_default(limit: Option<u32>) -> u32 {
    match limit { Some(l) => l, None => DEFAULT_PAGE }
}

/// Reads the query of `GET /api/messages`: `None` when the limit is outside 1 to 100, a
/// `before` boundary is not positive, an `after` boundary is negative, or both are given.
pub fn history_query(limit: Option<u32>, before: Option<i64>, after: Option<i64>) -> (r: Option<HistoryQuery>)
    ensures
        r is Some <==> (limit_ok(limit) && (before matches Some(b) ==> b > 0)
            && (after matches Some(a) ==> a >= 0) && !(before is Some && after is Some)),
        r matches Some(q) ==> q == (match (before, after) {
            (Some(b), _) => HistoryQuery::Before { limit: limit_or_default(limit), before: b },
            (_, Some(a)) => HistoryQuery::After { limit: limit_or_default(limit), after: a },
            _ => HistoryQuery::Newest { limit: limit_or_default(limit) },
        }),
{
    let l = match limit {
        Some(l) => l,
        None => DEFAULT_PAGE,
    };
    if l < 1 || l > MAX_PAGE {
        return None;
    }
    match (before, after) {
        (Some(_), Some(_)) => None,
        (Some(b), None) => if b > 0 { Some(HistoryQuery::Before { limit: l, before: b }) } else { None },
        (None, Some(a)) => if a >= 0 { Some(HistoryQuery::After { limit: l, after: a }) } else { None },
        (None, None) => Some(HistoryQuery::Newest { limit: l }),
    }
}

/// Reads the query of `GET /api/files`: `Some((limit, before))` when the limit is 1 to 100
/// (default 50) and `before`, if given, is positive.
pub fn files_query(limit: Option<u32>, before: Option<i64>) -> (r: Option<(u32, Option<i64>)>)
    ensures
        r is Some <==> (limit_ok(limit) && (before matches Some(b) ==> b > 0)),
        r matches Some(q) ==> q == (limit_or_default(limit), before),
{
    let l = match limit {
        Some(l) => l,
        None => DEFAULT_PAGE,
    };
    if l < 1 || l > MAX_PAGE {
        return None;
    }
    match before {
        Some(b) => if b > 0 { Some((l, before)) } else { None },
        None => Some((l, before)),
    }
}

/// A page of history in ascending id order.
pub struct HistoryPage {
    pub messages: Vec<Message>,
    /// The smallest id on the page (the next exclusive `before` boundary).
    pub before: Option<i64>,
    /// Whether rows older than this page exist.
    pub has_older: bool,
}

/// A page read after an exclusive cursor, in ascending id order.
pub struct AfterPage {
    pub messages: Vec<Message>,
    /// The largest id on the page (the next exclusive `after` cursor).
    pub after: Option<i64>,
    pub has_more: bool,
}

/// A page of the file list, newest first.
pub struct FilesPage {
    pub files: Vec<Message>,
    /// The smallest id on the page (the next exclusive `before` boundary).
    pub before: Option<i64>,
    pub has_more: bool,
}

pub open spec fn min_len(n: nat, limit: nat) -> nat {
    if n < limit { n } else { limit }
}

/// The messages of a history page cut from rows read newest first.
pub open spec fn history_messages(rows: Seq<Message>, limit: nat) -> Seq<Message> {
    rows.take(min_len(rows.len(), limit) as int).reverse()
}

/// The messages of a page cut from rows read in the page's own order.
pub open spec fn leading(rows: Seq<Message>, limit: nat) -> Seq<Message> {
    rows.take(min_len(rows.len(), limit) as int)
}

pub open spec fn first_id(s: Seq<Message>) -> Option<i64> {
    if s.len() == 0 { None } else { Some(s[0].id) }
}

pub open spec fn last_id(s: Seq<Message>) -> Option<i64> {
    if s.len() == 0 { None } else { Some(s.last().id) }
}

/// Keeps the first `n` rows of `rows`.
fn keep_first(rows: Vec<Message>, n: usize) -> (r: Vec<Message>)
    ensures
        r@ == rows@.take(min_len(rows@.len(), n as nat) as int),
{
    let mut rows = rows;
    let ghost orig = rows@;
    rows.truncate(n);
    proof {
        if orig.len() <= n {
            assert(orig.take(orig.len() as int) =~= orig);
        }
    }
    rows
}

/// Cuts a history page from rows read newest first (the service reads one row more than
/// the limit): keeps `limit` rows, turns them into ascending order, and reports whether
/// older rows exist.
pub fn history_page(rows: Vec<Message>, limit: u32) -> (p: HistoryPage)
    ensures
        p.messages@ == history_messages(rows@, limit as nat),
        p.has_older == (rows@.len() > limit),
        p.before == first_id(p.messages@),
{
    let has_older = rows.len() > limit as usize;
    let mut kept = keep_first(rows, limit as usize);
    let ghost r = kept@;
    let m = kept.len();
    let mut out: Vec<Message> = Vec::new();
    while kept.len() > 0
        invariant
            m == r.len(),
            kept@ == r.take(kept@.len() as int),
            out@.len() + kept@.len() == m,
            forall|i: int| 0 <= i < out@.len() ==> #[trigger] out@[i] == r[m - 1 - i],
        decreases kept@.len(),
    {
        let ghost before_pop = kept@;
        let x = kept.pop().unwrap();
        proof {
            assert(x == r[kept@.len() as int]);
            assert(kept@ =~= r.take(kept@.len() as int));
        }
        out.push(x);
    }
    proof {
        assert(out@ =~= r.reverse());
    }
    let before = if out.len() > 0 { Some(out[0].id) } else { None };
    HistoryPage { messages: out, before, has_older }
}

/// Cuts an incremental page from rows read in ascending order after the cursor.
pub fn after_page(rows: Vec<Message>, limit: u32) -> (p: AfterPage)
    ensures
        p.messages@ == leading(rows@, limit as nat),
        p.has_more == (rows@.len() > limit),
        p.after == last_id(p.messages@),
{
    let has_more = rows.len() > limit as usize;
    let kept = keep_first(rows, limit as usize);
    let after = if kept.len() > 0 { Some(kept[kept.len() - 1].id) } else { None };
    AfterPage { messages: kept, after, has_more }
}

/// Cuts a file-list page from committed file rows read newest first.
pub fn files_page(rows: Vec<Message>, limit: u32) -> (p: FilesPage)
    ensures
        p.files@ == leading(rows@, limit as nat),
        p.has_more == (rows@.len() > limit),
        p.before == last_id(p.files@),
{
    let has_more = rows.len() > limit as usize;
    let kept = keep_first(rows, limit as usize);
    let before = if kept.len() > 0 { Some(kept[kept.len() - 1].id) } else { None };
    FilesPage { files: kept, before, has_more }
}


// ---------------------------------------------------------------------------------------
// The message table and what the page queries read from it
// ---------------------------------------------------------------------------------------

/// Whether the ids of `t` strictly increase (the message table in id order).
pub open spec fn ids_ascending(t: Seq<Message>) -> bool {
    forall|i: int, j: int| 0 <= i < j < t.len() ==> t[i].id < t[j].id
}

/// How many leading messages of `t` have an id at most `a`.
pub open spec fn count_through(t: Seq<Message>, a: int) -> nat
    decreases t.len(),
{
    if t.len() > 0 && t[0].id <= a {
        1 + count_through(t.drop_first(), a)
    } else {
        0
    }
}

/// How many leading messages of `t` have an id below `b`.
pub open spec fn count_below(t: Seq<Message>, b: int) -> nat
    decreases t.len(),
{
    if t.len() > 0 && t[0].id < b {
        1 + count_below(t.drop_first(), b)
    } else {
        0
    }
}

/// How many messages of `t` lie before a history boundary (all of them for the newest page).
pub open spec fn boundary_count(t: Seq<Message>, before: Option<i64>) -> nat {
    match before {
        Some(b) => count_below(t, b as int),
        None => t.len(),
    }
}

/// The rows that the incremental query reads: the earliest `limit + 1` messages with an id
/// above `a`, in ascending order.
pub open spec fn rows_after(t: Seq<Message>, a: int, limit: nat) -> Seq<Message> {
    let k = count_through(t, a);
    t.skip(k as int).take(min_len((t.len() - k) as nat, limit + 1) as int)
}

/// The rows that the history query reads: the latest `limit + 1` messages before the
/// boundary, newest first.
pub open spec fn rows_before(t: Seq<Message>, before: Option<i64>, limit: nat) -> Seq<Message> {
    let k = boundary_count(t, before);
    t.take(k as int).reverse().take(min_len(k, limit + 1) as int)
}

proof fn lemma_counts_bounded(t: Seq<Message>, a: int)
    ensures
        count_through(t, a) <= t.len(),
        count_below(t, a) <= t.len(),
    decreases t.len(),
{
    if t.len() > 0 {
        lemma_counts_bounded(t.drop_first(), a);
    }
}

proof fn lemma_count_at(t: Seq<Message>, j: int)
    requires
        ids_ascending(t),
        0 <= j < t.len(),
    ensures
        count_through(t, t[j].id as int) == j + 1,
        count_below(t, t[j].id as int) == j,
    decreases j,
{
    let u = t.drop_first();
    assert(ids_ascending(u)) by {
        assert forall|x: int, y: int| 0 <= x < y < u.len() implies u[x].id < u[y].id by {
            assert(u[x] == t[x + 1] && u[y] == t[y + 1]);
        }
    }
    if j == 0 {
        if u.len() > 0 {
            assert(u[0] == t[1]);
        }
        assert(count_through(u, t[0].id as int) == 0);
        assert(count_below(t, t[0].id as int) == 0);
    } else {
        assert(t[0].id < t[j].id);
        assert(u[j - 1] == t[j]);
        lemma_count_at(u, j - 1);
    }
}

/// Incremental reading never skips or repeats a message: the page read after cursor `a`,
/// followed by everything after the page's own cursor, is exactly everything after `a`;
/// the page reports more rows exactly when more than `limit` remain, and a page that
/// reports none left holds all of them.
pub proof fn lemma_after_pages_continue(t: Seq<Message>, a: i64, limit: nat)
    requires
        ids_ascending(t),
        limit >= 1,
    ensures
        ({
            let k = count_through(t, a as int);
            let rows = rows_after(t, a as int, limit);
            let page = leading(rows, limit);
            let next = match last_id(page) {
                Some(c) => c as int,
                None => a as int,
            };
            &&& t.skip(k as int) == page + t.skip(count_through(t, next) as int)
            &&& (rows.len() > limit) == (t.len() - k > limit)
            &&& !(rows.len() > limit) ==> page == t.skip(k as int)
            &&& forall|i: int| 0 <= i < page.len() ==> #[trigger] page[i].id > a
        }),
{
    let k = count_through(t, a as int);
    lemma_counts_bounded(t, a as int);
    let r = t.skip(k as int);
    let rows = rows_after(t, a as int, limit);
    let page = leading(rows, limit);
    let m = page.len();
    assert(rows == r.take(rows.len() as int));
    assert(page =~= r.take(m as int));
    assert forall|i: int| 0 <= i < page.len() implies #[trigger] page[i].id > a by {
        lemma_after_count_exceeds(t, a as int, k + i);
    }
    if m == 0 {
        assert(r.len() == 0);
        assert(page + r =~= r);
    } else {
        lemma_count_at(t, k + m - 1);
        assert(page.last() == t[k + m - 1]);
        assert(r =~= page + t.skip((k + m) as int));
        if !(rows.len() > limit) {
            assert(page =~= r);
        }
    }
}

proof fn lemma_after_count_exceeds(t: Seq<Message>, a: int, j: int)
    requires
        ids_ascending(t),
        count_through(t, a) <= j < t.len(),
    ensures
        t[j].id > a,
{
    let k = count_through(t, a);
    lemma_counts_bounded(t, a);
    if k < t.len() {
        lemma_count_first_above(t, a);
        if j > k {
            assert(t[k as int].id < t[j].id);
        }
    }
}

proof fn lemma_count_first_above(t: Seq<Message>, a: int)
    requires
        count_through(t, a) < t.len(),
    ensures
        t[count_through(t, a) as int].id > a,
    decreases t.len(),
{
    if t[0].id <= a {
        let u = t.drop_first();
        lemma_count_first_above(u, a);
        assert(u[count_through(u, a) as int] == t[count_through(t, a) as int]);
    }
}

/// History pages are contiguous and exclusive: the page before a boundary holds the last
/// `min(k, limit)` messages before it in ascending order, reports older rows exactly when
/// more than `limit` precede the boundary, and the messages before the page's own boundary
/// followed by the page are exactly the messages before the starting boundary.
pub proof fn lemma_history_pages_continue(t: Seq<Message>, before: Option<i64>, limit: nat)
    requires
        ids_ascending(t),
        limit >= 1,
    ensures
        ({
            let k = boundary_count(t, before);
            let rows = rows_before(t, before, limit);
            let page = history_messages(rows, limit);
            &&& page == t.subrange(k - min_len(k, limit), k as int)
            &&& (rows.len() > limit) == (k > limit)
            &&& page.len() > 0 ==> t.take(k as int) == t.take(
                boundary_count(t, Some(page[0].id)) as int,
            ) + page
        }),
{
    let k = boundary_count(t, before);
    match before {
        Some(b) => lemma_counts_bounded(t, b as int),
        None => {},
    }
    let rows = rows_before(t, before, limit);
    let m = min_len(k, limit);
    let page = history_messages(rows, limit);
    assert(rows.len() == min_len(k, limit + 1));
    assert forall|i: int| 0 <= i < rows.len() implies #[trigger] rows[i] == t[k - 1 - i] by {
        assert(t.take(k as int).reverse()[i] == t.take(k as int)[k - 1 - i]);
    }
    assert(page =~= t.subrange(k - m, k as int)) by {
        assert forall|i: int| 0 <= i < m implies #[trigger] page[i] == t[k - m + i] by {
            assert(rows.take(m as int).reverse()[i] == rows.take(m as int)[m - 1 - i]);
        }
    }
    if page.len() > 0 {
        lemma_count_at(t, k - m);
        assert(page[0] == t[k - m]);
        assert(t.take(k as int) =~= t.take(k - m) + page);
    }
}


/// File-list pages are contiguous and exclusive, newest first: the page before a
/// boundary holds the newest `min(k, limit)` listed files before it, and the page
/// followed by everything before the page's own boundary (its smallest id) is exactly
/// everything before the starting boundary, newest first.
pub proof fn lemma_file_pages_continue(t: Seq<Message>, before: Option<i64>, limit: nat)
    requires
        ids_ascending(t),
        limit >= 1,
    ensures
        ({
            let k = boundary_count(t, before);
            let rows = rows_before(t, before, limit);
            let page = leading(rows, limit);
            &&& page == t.subrange(k - min_len(k, limit), k as int).reverse()
            &&& (rows.len() > limit) == (k > limit)
            &&& page.len() > 0 ==> t.take(k as int).reverse() == page + t.take(
                boundary_count(t, Some(page.last().id)) as int,
            ).reverse()
        }),
{
    let k = boundary_count(t, before);
    match before {
        Some(b) => lemma_counts_bounded(t, b as int),
        None => {},
    }
    let rows = rows_before(t, before, limit);
    let m = min_len(k, limit);
    let page = leading(rows, limit);
    assert(rows.len() == min_len(k, limit + 1));
    assert forall|i: int| 0 <= i < rows.len() implies #[trigger] rows[i] == t[k - 1 - i] by {
        assert(t.take(k as int).reverse()[i] == t.take(k as int)[k - 1 - i]);
    }
    assert(page =~= t.subrange(k - m, k as int).reverse());
    if page.len() > 0 {
        lemma_count_at(t, k - m);
        assert(page.last() == t[k - m]);
        assert(t.take(k as int).reverse() =~= page + t.take(k - m).reverse());
    }
}

} // verus!
