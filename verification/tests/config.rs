use filehop::config::valid_origin;

#[test]
fn origin_must_be_an_exact_https_origin() {
    assert!(valid_origin("https://filehop.invalid"));
    assert!(valid_origin("https://example.invalid:8443"));
    assert!(!valid_origin("https://filehop.invalid/"));
    assert!(!valid_origin("http://filehop.invalid"));
    assert!(!valid_origin("https://user@filehop.invalid"));
    assert!(!valid_origin("https://filehop.invalid/path"));
    assert!(!valid_origin("filehop.invalid"));
    assert!(!valid_origin(""));
}
