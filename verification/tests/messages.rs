use filehop::messages::{
    after_page, files_page, files_query, history_page, history_query, json_content_type,
    send_outcome, validate_send, HistoryQuery, Message, MessageKind, SendError, SendInput,
    SendOutcome,
};
use filehop::whitespace;

const ID: &str = "12345678-1234-4234-8234-123456789abc";

fn message(id: i64, text: &str) -> Message {
    Message {
        id,
        send_id: format!("00000000-0000-4000-8000-{id:012}"),
        text: Some(text.to_string()),
        source_label: "Web".to_string(),
        created_at: "2024-01-01T00:00:00Z".to_string(),
        kind: MessageKind::Text,
        file_id: None,
        file_name: None,
        file_size: None,
        file_mime: None,
        file_state: None,
        state_version: None,
    }
}

fn ids(v: &[Message]) -> Vec<i64> {
    v.iter().map(|m| m.id).collect()
}

#[test]
fn whitespace_is_the_fixed_white_space_set() {
    for c in ['\t', '\n', '\u{000b}', '\u{000c}', '\r', ' ', '\u{0085}', '\u{00a0}', '\u{1680}', '\u{2000}', '\u{200a}', '\u{2028}', '\u{2029}', '\u{202f}', '\u{205f}', '\u{3000}'] {
        assert!(whitespace(c), "{c:?}");
    }
    for c in ['a', '\u{feff}', '\u{200b}', '\u{180e}', '_'] {
        assert!(!whitespace(c), "{c:?}");
    }
}

#[test]
fn send_validation_keeps_text_verbatim_and_trims_the_label() {
    let input = validate_send(&ID.to_uppercase(), "  <b>中文</b>\n  code\n", "\u{0085} Desk \u{3000}").unwrap();
    assert_eq!(input.send_id, ID);
    assert_eq!(input.text, "  <b>中文</b>\n  code\n");
    assert_eq!(input.source_label, "Desk");
}

#[test]
fn send_validation_errors_follow_the_service_order() {
    assert_eq!(validate_send("not-a-uuid", "", "").err(), Some(SendError::InvalidSendId));
    let big = "a".repeat(65_537);
    assert_eq!(validate_send(ID, &big, "").err(), Some(SendError::TextTooLarge));
    assert!(validate_send(ID, &"a".repeat(65_536), "Web").is_ok());
    // 16,384 four-byte characters are exactly 65,536 UTF-8 bytes.
    assert!(validate_send(ID, &"\u{1f600}".repeat(16_384), "Web").is_ok());
    let over = format!("{}a", "\u{1f600}".repeat(16_384));
    assert_eq!(validate_send(ID, &over, "Web").err(), Some(SendError::TextTooLarge));
    assert_eq!(validate_send(ID, " \u{0085} ", "Web").err(), Some(SendError::EmptyText));
    assert_eq!(validate_send(ID, "", "Web").err(), Some(SendError::EmptyText));
    assert!(validate_send(ID, "\u{200b}", "Web").is_ok());
    assert_eq!(validate_send(ID, "x", "   ").err(), Some(SendError::InvalidSourceLabel));
    assert!(validate_send(ID, "x", &"名".repeat(64)).is_ok());
    assert_eq!(validate_send(ID, "x", &"名".repeat(65)).err(), Some(SendError::InvalidSourceLabel));
}

#[test]
fn replay_and_conflict_are_decided_by_payload() {
    let input = SendInput { send_id: ID.into(), text: "same".into(), source_label: "Web".into() };
    let stored = message(1, "same");
    assert_eq!(send_outcome(true, false, &stored, &input), SendOutcome::Created);
    assert_eq!(send_outcome(false, false, &stored, &input), SendOutcome::Replayed);
    let other = SendInput { send_id: ID.into(), text: "other".into(), source_label: "Web".into() };
    assert_eq!(send_outcome(false, false, &stored, &other), SendOutcome::Conflict);
    let relabeled = SendInput { send_id: ID.into(), text: "same".into(), source_label: "Other".into() };
    assert_eq!(send_outcome(false, false, &stored, &relabeled), SendOutcome::Conflict);
    let mut file = message(2, "");
    file.kind = MessageKind::File;
    file.text = None;
    assert_eq!(send_outcome(false, false, &file, &input), SendOutcome::Conflict);
    assert_eq!(send_outcome(true, true, &stored, &input), SendOutcome::UsedByFile);
    assert_eq!(send_outcome(false, true, &stored, &input), SendOutcome::UsedByFile);
}

#[test]
fn json_content_type_reads_the_media_type_only() {
    assert!(json_content_type(Some("application/json")));
    assert!(json_content_type(Some(" Application/JSON ; charset=utf-8")));
    assert!(!json_content_type(Some("text/plain")));
    assert!(!json_content_type(Some("application/jsonx")));
    assert!(!json_content_type(None));
}

#[test]
fn history_queries_accept_only_documented_shapes() {
    assert_eq!(history_query(None, None, None), Some(HistoryQuery::Newest { limit: 50 }));
    assert_eq!(history_query(Some(2), Some(7), None), Some(HistoryQuery::Before { limit: 2, before: 7 }));
    assert_eq!(history_query(Some(100), None, Some(0)), Some(HistoryQuery::After { limit: 100, after: 0 }));
    assert_eq!(history_query(Some(0), None, None), None);
    assert_eq!(history_query(Some(101), None, None), None);
    assert_eq!(history_query(None, Some(2), Some(1)), None);
    assert_eq!(history_query(None, Some(0), None), None);
    assert_eq!(history_query(None, None, Some(-1)), None);
    assert_eq!(files_query(None, None), Some((50, None)));
    assert_eq!(files_query(Some(100), Some(3)), Some((100, Some(3))));
    assert_eq!(files_query(None, Some(0)), None);
    assert_eq!(files_query(Some(101), None), None);
}

#[test]
fn newest_page_is_ascending_and_reports_older_rows() {
    // The service reads limit + 1 rows newest first.
    let rows = vec![message(53, "c"), message(52, "b"), message(51, "a")];
    let page = history_page(rows, 2);
    assert_eq!(ids(&page.messages), vec![52, 53]);
    assert_eq!(page.before, Some(52));
    assert!(page.has_older);
    let page = history_page(vec![message(1, "only")], 2);
    assert_eq!(ids(&page.messages), vec![1]);
    assert!(!page.has_older);
    let empty = history_page(Vec::new(), 50);
    assert!(empty.messages.is_empty());
    assert_eq!(empty.before, None);
}

#[test]
fn incremental_pages_continue_from_their_cursor() {
    let table: Vec<i64> = (1..=5).collect();
    let mut cursor = 0;
    let mut seen = Vec::new();
    loop {
        let rows: Vec<Message> = table.iter().filter(|&&id| id > cursor).take(3).map(|&id| message(id, "x")).collect();
        let page = after_page(rows, 2);
        seen.extend(ids(&page.messages));
        match page.after {
            Some(next) => cursor = next,
            None => break,
        }
        if !page.has_more {
            break;
        }
    }
    assert_eq!(seen, table);
}

#[test]
fn file_pages_stay_newest_first() {
    let rows = vec![message(9, ""), message(7, ""), message(4, "")];
    let page = files_page(rows, 2);
    assert_eq!(ids(&page.files), vec![9, 7]);
    assert_eq!(page.before, Some(7));
    assert!(page.has_more);
}
