use filehop::ids::{canonical_uuid, fresh_simple_uuid, fresh_uuid};

fn lower_hex(c: char) -> bool {
    c.is_ascii_digit() || ('a'..='f').contains(&c)
}

#[test]
fn canonical_uuids_are_lower_case_hyphenated() {
    assert_eq!(
        canonical_uuid("67E55044-10B1-426F-9247-BB680E5FE0C8"),
        Some("67e55044-10b1-426f-9247-bb680e5fe0c8".to_string())
    );
    assert_eq!(
        canonical_uuid("67e5504410b1426f9247bb680e5fe0c8"),
        Some("67e55044-10b1-426f-9247-bb680e5fe0c8".to_string())
    );
    assert_eq!(canonical_uuid("not-a-uuid"), None);
    assert_eq!(canonical_uuid(""), None);
}

#[test]
fn fresh_identifiers_have_their_documented_forms() {
    let u = fresh_uuid();
    assert_eq!(u.len(), 36);
    for (i, c) in u.chars().enumerate() {
        if [8, 13, 18, 23].contains(&i) {
            assert_eq!(c, '-');
        } else {
            assert!(lower_hex(c));
        }
    }
    let s = fresh_simple_uuid();
    assert_eq!(s.len(), 32);
    assert!(s.chars().all(lower_hex));
    assert_ne!(fresh_uuid(), fresh_uuid());
}

#[test]
fn fresh_identifiers_carry_the_random_version_and_variant() {
    let u: Vec<char> = fresh_uuid().chars().collect();
    assert_eq!(u[14], '4');
    assert!(['8', '9', 'a', 'b'].contains(&u[19]));
    let s: Vec<char> = fresh_simple_uuid().chars().collect();
    assert_eq!(s[12], '4');
    assert!(['8', '9', 'a', 'b'].contains(&s[16]));
    let t: Vec<char> = filehop::session::new_session_token().chars().collect();
    assert_eq!((t[12], t[44]), ('4', '4'));
    assert!(['8', '9', 'a', 'b'].contains(&t[16]) && ['8', '9', 'a', 'b'].contains(&t[48]));
}
