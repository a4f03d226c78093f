use argon2::PasswordHasher;
use filehop::session::{
    client_source, credentials_match, credentials_shape, new_session_token, normalize_username,
    origin_allowed, session_cookie, session_expiry, session_live, session_token, session_tokens,
    token_digest, verify_password, session_answer, AuthFailure,
};
use filehop::throttle::Source;

fn token(c: char) -> String {
    std::iter::repeat(c).take(64).collect()
}

#[test]
fn session_cookie_pairs_are_found_in_every_cookie_header() {
    let a = token('a');
    let b = token('b');
    let headers = vec![
        format!("theme=dark; __Host-filehop={a}"),
        format!("  __Host-filehop={b} ;other=1"),
        "__Host-filehopx=zz; filehop=1".to_string(),
    ];
    assert_eq!(session_tokens(&headers), vec![a.clone(), b]);
    assert_eq!(session_tokens(&vec![format!("__Host-filehop={a}")]), vec![a]);
    assert!(session_tokens(&Vec::new()).is_empty());
}

#[test]
fn authentication_needs_exactly_one_well_sized_token() {
    let a = token('a');
    assert_eq!(session_token(false, vec![a.clone()]), Some(a.clone()));
    assert_eq!(session_token(true, vec![a.clone()]), None);
    assert_eq!(session_token(false, vec![a.clone(), a.clone()]), None);
    assert_eq!(session_token(false, vec!["invalid".to_string()]), None);
    assert_eq!(session_token(false, Vec::new()), None);
}

#[test]
fn issued_cookie_is_read_back() {
    let t = new_session_token();
    assert_eq!(t.len(), 64);
    assert!(t.chars().all(|c| c.is_ascii_hexdigit() && !c.is_ascii_uppercase()));
    assert_ne!(t, new_session_token());
    let cookie = session_cookie(&t);
    assert_eq!(cookie, format!("__Host-filehop={t}; Path=/; Secure; HttpOnly; SameSite=Lax; Max-Age=43200"));
    let pair = cookie.split(';').next().unwrap().to_string();
    let tokens = session_tokens(&vec![pair]);
    assert_eq!(session_token(false, tokens), Some(t));
}

#[test]
fn origin_must_be_single_and_exact() {
    let origin = "https://filehop.invalid";
    assert!(origin_allowed(&vec![Some(origin.to_string())], origin));
    assert!(!origin_allowed(&vec![Some("https://filehop.invalid/".to_string())], origin));
    assert!(!origin_allowed(&vec![Some("null".to_string())], origin));
    assert!(!origin_allowed(&vec![Some("https://evil.invalid".to_string())], origin));
    assert!(!origin_allowed(&vec![Some(origin.to_string()), Some(origin.to_string())], origin));
    assert!(!origin_allowed(&vec![None], origin));
    assert!(!origin_allowed(&Vec::new(), origin));
}

#[test]
fn credential_shapes_count_password_code_points() {
    let good = "long enough password";
    assert!(credentials_shape("Admin", good));
    assert!(credentials_shape("a_b-9", "\u{1f600}".repeat(12).as_str()));
    assert!(!credentials_shape("ab", good));
    assert!(!credentials_shape(&"a".repeat(33), good));
    assert!(credentials_shape(&"a".repeat(32), good));
    assert!(!credentials_shape(" space", good));
    assert!(!credentials_shape("管理员", good));
    assert!(!credentials_shape("admin", &"x".repeat(11)));
    assert!(credentials_shape("admin", &"x".repeat(128)));
    assert!(!credentials_shape("admin", &"x".repeat(129)));
}

#[test]
fn usernames_match_up_to_ascii_case() {
    assert_eq!(normalize_username("ADMIN_x-1"), "admin_x-1");
    assert!(credentials_match("ADMIN", " synthetic password ", "admin"));
    assert!(!credentials_match(" Admin", " synthetic password ", "admin"));
    assert!(!credentials_match("unknown", " synthetic password ", "admin"));
    assert!(!credentials_match("admin", "short", "admin"));
}

#[test]
fn argon2_hash_verifies_only_its_password() {
    let hash = argon2::Argon2::default()
        .hash_password_with_salt(b" synthetic password ", b"synthetic-salt-16")
        .unwrap()
        .to_string();
    assert!(verify_password(" synthetic password ", &hash));
    assert!(!verify_password("wrong password", &hash));
    assert!(!verify_password(" synthetic password ", "not a hash"));
}

#[test]
fn session_digest_is_sha256() {
    let d = token_digest("abc");
    let hex: String = d.iter().map(|b| format!("{b:02x}")).collect();
    assert_eq!(hex, "ba7816bf8f01cfea414140de5dae2223b00361a396177a9cb410ff61f20015ad");
}

#[test]
fn sessions_end_exactly_twelve_hours_after_login() {
    let created = 1_800_000_000;
    let expires = session_expiry(created);
    assert_eq!(expires, created + 43_200);
    assert!(session_live(expires, created + 43_199));
    assert!(!session_live(expires, created + 43_200));
}

#[test]
fn only_the_exact_trusted_proxy_supplies_the_client_address() {
    let proxy = Source { v6: false, bits: 0xc000_0201 };
    let other = Source { v6: false, bits: 0xc000_0202 };
    let client = Source { v6: false, bits: 0xcb00_7101 };
    assert_eq!(client_source(Some(proxy), Some(proxy), Some(client)), Some(client));
    assert_eq!(client_source(Some(proxy), Some(proxy), None), None);
    assert_eq!(client_source(Some(other), Some(proxy), Some(client)), Some(other));
    assert_eq!(client_source(None, None, Some(client)), Some(Source { v6: false, bits: 0x7f00_0001 }));
}

#[test]
fn a_session_lookup_authenticates_only_a_live_row() {
    assert_eq!(session_answer(Some(Some(1_000)), 999), Ok(1_000));
    assert_eq!(session_answer(Some(Some(1_000)), 1_000), Err(AuthFailure::SessionInvalid));
    assert_eq!(session_answer(Some(None), 0), Err(AuthFailure::SessionInvalid));
    assert_eq!(session_answer(None, 0), Err(AuthFailure::Unavailable));
}
