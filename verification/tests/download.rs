use filehop::download::{content_disposition, download_name, entity_intact};

#[test]
fn filename_cannot_inject_headers_or_paths() {
    let name = "报告\r\nX-Injected: 1/../bad.txt";
    assert_eq!(download_name(name), "报告X-Injected: 1..bad.txt");
    let value = content_disposition(name);
    assert_eq!(value, "attachment; filename*=UTF-8''%E6%8A%A5%E5%91%8AX-Injected%3A%201..bad.txt");
    assert!(value.chars().all(|c| (' '..='~').contains(&c) && c != '"'));
}

#[test]
fn empty_or_stripped_names_become_download() {
    assert_eq!(content_disposition(""), "attachment; filename*=UTF-8''download");
    assert_eq!(content_disposition("\u{202e}/\\\u{7f}"), "attachment; filename*=UTF-8''download");
    assert_eq!(content_disposition("a b\"c"), "attachment; filename*=UTF-8''a%20b%22c");
    assert_eq!(content_disposition("!#$&+-.^_`|~"), "attachment; filename*=UTF-8''!#$&+-.^_`|~");
}

#[test]
fn entities_must_match_their_records() {
    assert!(entity_intact(3, true, 3));
    assert!(!entity_intact(3, true, 2));
    assert!(!entity_intact(3, false, 3));
    assert!(!entity_intact(-1, true, u64::MAX));
}
