//! Session rules: which cookie carries the session, how a request's origin and
//! credentials are judged, session tokens, expiry and the client source used for
//! throttling.
use crate::chars::{
    ascii_lowercase, chars_of, has_prefix, is_space, lemma_split_first, push_char, slice_eq,
    split_on, string_of, to_ascii_lower, trim, trim_end, trim_start, trim_bounds,
};
use crate::ids::{fresh_simple_uuid, is_hex_text, is_lower_hex, is_v4_simple};
use crate::files::Status;
use crate::throttle::Source;
use argon2::PasswordVerifier;
use sha2::Digest;
use vstd::prelude::*;

verus! {

broadcast use vstd::string::group_string_axioms;

/// The session lifetime in seconds (12 hours); reading a session never extends it.
pub const LIFETIME: i64 = 43_200;

/// The prefix of a cookie pair that carries the session.
pub open spec fn cookie_prefix() -> Seq<char> {
    "__Host-filehop="@
}

/// The session token of one `;`-separated cookie pair, if the pair is the session cookie.
pub open spec fn cookie_token(part: Seq<char>) -> Option<Seq<char>> {
    let t = trim(part);
    if has_prefix(t, cookie_prefix()) {
        Some(t.skip(cookie_prefix().len() as int))
    } else {
        None
    }
}

/// The session tokens carried by one Cookie header value.
pub open spec fn header_tokens(h: Seq<char>) -> Seq<Seq<char>> {
    split_on(h, ';').filter_map(|p: Seq<char>| cookie_token(p))
}

/// The session tokens carried by all Cookie header values, in order.
pub open spec fn cookie_tokens(hs: Seq<Seq<char>>) -> Seq<Seq<char>>
    decreases hs.len(),
{
    if hs.len() == 0 {
        Seq::empty()
    } else {
        cookie_tokens(hs.drop_last()) + header_tokens(hs.last())
    }
}

pub open spec fn views(v: Seq<String>) -> Seq<Seq<char>> {
    v.map_values(|s: String| s@)
}

fn token_of_part(part: &Vec<char>, prefix: &Vec<char>) -> (r: Option<String>)
    requires
        prefix@ == cookie_prefix(),
    ensures
        match r {
            Some(t) => cookie_token(part@) == Some(t@),
            None => cookie_token(part@) is None,
        },
{
    let (i, j) = trim_bounds(part);
    let ghost t = trim(part@);
    if j - i >= prefix.len() && slice_eq(part, i, i + prefix.len(), prefix) {
        proof {
            assert(part@.subrange(i as int, (i + prefix.len()) as int) =~= t.take(prefix@.len() as int));
            assert(part@.subrange((i + prefix.len()) as int, j as int) =~= t.skip(prefix@.len() as int));
        }
        Some(string_of(part, i + prefix.len(), j))
    } else {
        proof {
            if has_prefix(t, cookie_prefix()) {
                assert(part@.subrange(i as int, (i + prefix.len()) as int) =~= t.take(prefix@.len() as int));
            }
        }
        None
    }
}

/// Appends the session tokens of one Cookie header value to `out`.
fn push_header_tokens(h: &str, prefix: &Vec<char>, out: &mut Vec<String>)
    requires
        prefix@ == cookie_prefix(),
    ensures
        views(final(out)@) == views(old(out)@) + header_tokens(h@),
{
    let v = chars_of(h);
    let ghost f = |p: Seq<char>| cookie_token(p);
    let ghost start = views(out@);
    let ghost mut done: Seq<Seq<char>> = Seq::empty();
    let mut cur: Vec<char> = Vec::new();
    let mut i: usize = 0;
    while i < v.len()
        invariant
            v@ == h@,
            i <= v.len(),
            prefix@ == cookie_prefix(),
            f == (|p: Seq<char>| cookie_token(p)),
            split_on(v@.take(i as int), ';') == done.push(cur@),
            views(out@) == start + done.filter_map(f),
        decreases v.len() - i,
    {
        let c = v[i];
        proof {
            assert(v@.take(i + 1).drop_last() =~= v@.take(i as int));
            assert(v@.take(i + 1).last() == c);
        }
        if c == ';' {
            let t = token_of_part(&cur, prefix);
            let ghost before = out@;
            proof {
                let d2 = done.push(cur@);
                assert(d2.drop_last() =~= done);
                assert(d2.last() == cur@);
                assert(d2.filter_map(f) == match f(cur@) {
                    Some(x) => done.filter_map(f) + seq![x],
                    None => done.filter_map(f),
                });
            }
            match t {
                Some(t) => {
                    out.push(t);
                    proof {
                        assert(views(out@) =~= views(before).push(t@));
                    }
                },
                None => {},
            }
            proof {
                done = done.push(cur@);
            }
            cur = Vec::new();
        } else {
            cur.push(c);
            proof {
                assert(done.push(cur@.drop_last()).update(done.len() as int, cur@) =~= done.push(cur@));
            }
        }
        i = i + 1;
    }
    let t = token_of_part(&cur, prefix);
    let ghost before = out@;
    proof {
        assert(v@.take(v@.len() as int) =~= v@);
        let d2 = done.push(cur@);
        assert(d2.drop_last() =~= done);
        assert(d2.last() == cur@);
        assert(d2.filter_map(f) == match f(cur@) {
            Some(x) => done.filter_map(f) + seq![x],
            None => done.filter_map(f),
        });
    }
    match t {
        Some(t) => {
            out.push(t);
            proof {
                assert(views(out@) =~= views(before).push(t@));
            }
        },
        None => {},
    }
}

/// The session tokens of the request's Cookie header values (those that are visible
/// ASCII), in order: each value is split at `;`, each pair trimmed, and the pairs named
/// `__Host-filehop` give their values.
pub fn session_tokens(headers: &Vec<String>) -> (r: Vec<String>)
    ensures
        views(r@) == cookie_tokens(views(headers@)),
{
    let prefix = chars_of("__Host-filehop=");
    let mut out: Vec<String> = Vec::new();
    let mut i: usize = 0;
    while i < headers.len()
        invariant
            i <= headers.len(),
            prefix@ == cookie_prefix(),
            views(out@) == cookie_tokens(views(headers@).take(i as int)),
        decreases headers.len() - i,
    {
        push_header_tokens(headers[i].as_str(), &prefix, &mut out);
        proof {
            let hs = views(headers@);
            assert(hs.take(i + 1).drop_last() =~= hs.take(i as int));
            assert(hs.take(i + 1).last() == headers@[i as int]@);
        }
        i = i + 1;
    }
    proof {
        assert(views(headers@).take(headers.len() as int) =~= views(headers@));
    }
    out
}

/// A session handed out is read back: a request whose Cookie header carries the issued
/// pair `__Host-filehop=<token>` yields exactly that token, and the token has the
/// 64 bytes that authentication requires.
pub proof fn lemma_issued_cookie_read_back(token: Seq<char>)
    requires
        is_hex_text(token, 64),
    ensures
        cookie_tokens(seq![cookie_prefix() + token]) == seq![token],
        vstd::utf8::encode_utf8(token).len() == 64,
{
    reveal_strlit("__Host-filehop=");
    let p = cookie_prefix();
    let s = p + token;
    assert forall|k: int| 0 <= k < s.len() implies #[trigger] s[k] != ';' by {
        if k >= p.len() {
            assert(s[k] == token[k - p.len()]);
            assert(is_lower_hex(token[k - p.len()]));
        }
    }
    lemma_split_first(s, ';', s.len() as int);
    assert(s.take(s.len() as int) =~= s);
    assert(split_on(s, ';') =~= seq![s]);
    assert(!is_space(s[0]));
    assert(trim_start(s) == s);
    assert(s.last() == token[63]);
    assert(is_lower_hex(token[63]));
    assert(trim_end(s) == s);
    assert(s.take(p.len() as int) =~= p);
    assert(s.skip(p.len() as int) =~= token);
    assert(cookie_token(s) == Some(token));
    let one = split_on(s, ';');
    assert(one.drop_last() =~= Seq::<Seq<char>>::empty());
    assert(one.last() == s);
    assert(one.drop_last().filter_map(|p: Seq<char>| cookie_token(p)) =~= Seq::<Seq<char>>::empty());
    assert(header_tokens(s) =~= seq![token]);
    let hs = seq![s];
    assert(hs.last() == s);
    assert(cookie_tokens(hs.drop_last()) =~= Seq::<Seq<char>>::empty());
    assert(hs.drop_last() =~= Seq::<Seq<char>>::empty());
    assert(cookie_tokens(hs) =~= seq![token]);
    assert(vstd::utf8::is_ascii_chars(token)) by {
        assert forall|i: int| 0 <= i < token.len() implies '\0' <= #[trigger] token[i] <= '\u{7f}' by {
            assert(is_lower_hex(token[i]));
        }
    }
    vstd::utf8::is_ascii_chars_encode_utf8(token);
}

/// The token a request authenticates with: none when it carries an Authorization header,
/// or not exactly one session token, or a token that is not 64 bytes long.
pub fn session_token(has_authorization: bool, tokens: Vec<String>) -> (r: Option<String>)
    ensures
        r is Some <==> (!has_authorization && tokens@.len() == 1
            && vstd::utf8::encode_utf8(tokens@[0]@).len() == 64),
        r matches Some(t) ==> t == tokens@[0],
{
    if has_authorization || tokens.len() != 1 {
        return None;
    }
    let mut tokens = tokens;
    let t = tokens.pop().unwrap();
    if t.as_str().as_bytes().len() != 64 {
        return None;
    }
    Some(t)
}

/// Whether a state-changing request comes from the configured origin: it carries exactly
/// one Origin header and that header (visible ASCII, else `None`) equals the origin.
pub fn origin_allowed(values: &Vec<Option<String>>, origin: &str) -> (r: bool)
    ensures
        r == (values@.len() == 1 && (values@[0] matches Some(v) && v@ == origin@)),
{
    if values.len() != 1 {
        return false;
    }
    match &values[0] {
        Some(v) => {
            let a = chars_of(v.as_str());
            let b = chars_of(origin);
            proof {
                assert(a@.subrange(0, a@.len() as int) =~= a@);
            }
            slice_eq(&a, 0, a.len(), &b)
        },
        None => false,
    }
}

/// Whether `c` may appear in a username.
pub open spec fn username_char(c: char) -> bool {
    ('a' <= c <= 'z') || ('A' <= c <= 'Z') || ('0' <= c <= '9') || c == '_' || c == '-'
}

/// Whether a username and password have the accepted shape: 3 to 32 ASCII letters,
/// digits, `_` or `-`, and a password of 12 to 128 characters (not trimmed).
pub open spec fn credentials_ok(username: Seq<char>, password: Seq<char>) -> bool {
    &&& 3 <= username.len() <= 32
    &&& forall|i: int| 0 <= i < username.len() ==> username_char(#[trigger] username[i])
    &&& 12 <= password.len() <= 128
}

fn is_username_char(c: char) -> (r: bool)
    ensures
        r == username_char(c),
{
    ('a' <= c && c <= 'z') || ('A' <= c && c <= 'Z') || ('0' <= c && c <= '9') || c == '_' || c == '-'
}

/// Whether `username` and `password` have the accepted shape.
pub fn credentials_shape(username: &str, password: &str) -> (r: bool)
    ensures
        r == credentials_ok(username@, password@),
{
    let u = chars_of(username);
    if u.len() < 3 || u.len() > 32 {
        return false;
    }
    let mut i: usize = 0;
    while i < u.len()
        invariant
            i <= u.len(),
            u@ == username@,
            3 <= u.len() <= 32,
            forall|k: int| 0 <= k < i ==> username_char(#[trigger] u@[k]),
        decreases u.len() - i,
    {
        if !is_username_char(u[i]) {
            proof {
                assert(!username_char(username@[i as int]));
            }
            return false;
        }
        i = i + 1;
    }
    let n = chars_of(password).len();
    proof {
        assert(forall|k: int| 0 <= k < username@.len() ==> username_char(#[trigger] username@[k]));
    }
    12 <= n && n <= 128
}

/// `username` in ASCII lower case, as the account stores it.
pub fn normalize_username(username: &str) -> (r: String)
    ensures
        r@ == ascii_lowercase(username@),
{
    let u = chars_of(username);
    let mut r = String::new();
    let mut i: usize = 0;
    while i < u.len()
        invariant
            i <= u.len(),
            r@ == ascii_lowercase(u@).take(i as int),
        decreases u.len() - i,
    {
        push_char(&mut r, to_ascii_lower(u[i]));
        proof {
            assert(ascii_lowercase(u@).take(i + 1) =~= ascii_lowercase(u@).take(i as int).push(crate::chars::ascii_lower(u@[i as int])));
        }
        i = i + 1;
    }
    proof {
        assert(ascii_lowercase(u@).take(u@.len() as int) =~= ascii_lowercase(u@));
    }
    r
}

/// Whether submitted credentials name the stored account: the shape is accepted and the
/// username equals the stored one up to ASCII case. The password itself is judged by
/// [`verify_password`], which runs whatever this says.
pub fn credentials_match(username: &str, password: &str, stored_username: &str) -> (r: bool)
    ensures
        r == (credentials_ok(username@, password@) && ascii_lowercase(username@) == stored_username@),
{
    if !credentials_shape(username, password) {
        return false;
    }
    let lower = chars_of(normalize_username(username).as_str());
    let stored = chars_of(stored_username);
    let same = slice_eq(&lower, 0, lower.len(), &stored);
    proof {
        assert(lower@.subrange(0, lower@.len() as int) =~= lower@);
    }
    same
}

/// What `argon2` answers when `password` is checked against the PHC string `hash`.
pub uninterp spec fn spec_argon2_verifies(password: Seq<char>, hash: Seq<char>) -> bool;

/// Calls `PasswordVerifier::verify_password` of `argon2::Argon2::default()` with the
/// password's UTF-8 bytes and the stored PHC string; a hash that does not parse counts as
/// a mismatch. The result is named, not stated: it is the Argon2id comparison itself.
#[verifier::external_body]
pub fn verify_password(password: &str, hash: &str) -> (r: bool)
    ensures
        r == spec_argon2_verifies(password@, hash@),
{
    argon2::Argon2::default().verify_password(password.as_bytes(), hash).is_ok()
}

/// What SHA-256 gives for the UTF-8 bytes of `text`.
pub uninterp spec fn spec_sha256(text: Seq<char>) -> Seq<u8>;

/// Calls `sha2::Sha256::digest` on the UTF-8 bytes of a session token; the database keeps
/// only this digest. The contract names the digest and states its 32-byte length.
#[verifier::external_body]
pub fn token_digest(token: &str) -> (r: Vec<u8>)
    ensures
        r@ == spec_sha256(token@),
        r@.len() == 32,
{
    sha2::Sha256::digest(token.as_bytes()).to_vec()
}

/// A new session token: the simple forms of two fresh random UUIDs, one after the other,
/// 64 lower-case hexadecimal digits.
pub fn new_session_token() -> (r: String)
    ensures
        is_hex_text(r@, 64),
        is_v4_simple(r@.subrange(0, 32)),
        is_v4_simple(r@.subrange(32, 64)),
{
    let a = fresh_simple_uuid();
    let b = fresh_simple_uuid();
    let ghost ga = a@;
    let mut r = a;
    r.append(b.as_str());
    proof {
        assert(r@.subrange(0, 32) =~= ga);
        assert(r@.subrange(32, 64) =~= b@);
    }
    r
}

/// When a session created at `created` expires.
pub open spec fn expiry_of(created: int) -> int {
    created + LIFETIME
}

/// Whether a session with expiry `expires_at` is valid at `now`.
pub open spec fn is_live(expires_at: int, now: int) -> bool {
    expires_at > now
}

/// The expiry of a session created at `now`.
pub fn session_expiry(now: i64) -> (r: i64)
    requires
        now <= i64::MAX - LIFETIME,
    ensures
        r == expiry_of(now as int),
{
    now + LIFETIME
}

/// Whether a session with expiry `expires_at` is valid at `now`.
pub fn session_live(expires_at: i64, now: i64) -> (r: bool)
    ensures
        r == is_live(expires_at as int, now as int),
{
    expires_at > now
}

/// A session is valid exactly before 12 hours have passed since it was created: its
/// expiry is fixed at creation and no read moves it.
pub proof fn lemma_session_lifetime(created: int, now: int)
    ensures
        is_live(expiry_of(created), now) <==> now - created < 43_200,
{
}

/// Why a request is not authenticated.
#[derive(Clone, Copy, PartialEq, Eq, Structural, Debug)]
pub enum AuthFailure {
    /// No usable session (401 session_invalid).
    SessionInvalid,
    /// The storage or the session table cannot be read (503 unavailable).
    Unavailable,
}

/// The answer to a session lookup: `None` when the query failed, `Some(None)` when no
/// session has the token's digest, else that session's expiry.
pub open spec fn session_answer_spec(lookup: Option<Option<i64>>, now: i64) -> Result<i64, AuthFailure> {
    match lookup {
        None => Err(AuthFailure::Unavailable),
        Some(None) => Err(AuthFailure::SessionInvalid),
        Some(Some(e)) => if is_live(e as int, now as int) { Ok(e) } else { Err(AuthFailure::SessionInvalid) },
    }
}

/// Answers a session lookup at `now`: a live session authenticates and yields its expiry.
pub fn session_answer(lookup: Option<Option<i64>>, now: i64) -> (r: Result<i64, AuthFailure>)
    ensures
        r == session_answer_spec(lookup, now),
{
    match lookup {
        None => Err(AuthFailure::Unavailable),
        Some(None) => Err(AuthFailure::SessionInvalid),
        Some(Some(e)) => if session_live(e, now) {
            Ok(e)
        } else {
            Err(AuthFailure::SessionInvalid)
        },
    }
}

/// What the session query returns for `token` from a session table (digest to expiry),
/// `None` when the table cannot be read.
pub open spec fn lookup_of(table: Option<Map<Seq<u8>, i64>>, token: Seq<char>) -> Option<Option<i64>> {
    match table {
        None => None,
        Some(m) => if m.contains_key(spec_sha256(token)) { Some(Some(m[spec_sha256(token)])) } else { Some(None) },
    }
}

/// Authentication as a whole: the request's header and cookie checks come first, then
/// the storage status, then the session looked up by the token's digest.
pub open spec fn authentication_spec(
    has_authorization: bool,
    tokens: Seq<Seq<char>>,
    storage: Status,
    table: Option<Map<Seq<u8>, i64>>,
    now: i64,
) -> Result<i64, AuthFailure> {
    if has_authorization || tokens.len() != 1 || vstd::utf8::encode_utf8(tokens[0]).len() != 64 {
        Err(AuthFailure::SessionInvalid)
    } else if storage != Status::Initialized {
        Err(AuthFailure::Unavailable)
    } else {
        session_answer_spec(lookup_of(table, tokens[0]), now)
    }
}

/// A request is authenticated, with expiry `e`, exactly when it has no Authorization
/// header and exactly one session token of 64 bytes, the storage is in order, and the
/// session table holds a session with that token's SHA-256 digest whose expiry `e` lies
/// after `now`. A miss in the header, the cookies or the table answers 401, checked before
/// the storage; a storage or query failure answers 503.
pub proof fn lemma_authentication(
    has_authorization: bool,
    tokens: Seq<Seq<char>>,
    storage: Status,
    table: Option<Map<Seq<u8>, i64>>,
    now: i64,
    e: i64,
)
    ensures
        authentication_spec(has_authorization, tokens, storage, table, now) == Ok::<i64, AuthFailure>(e) <==> {
            &&& !has_authorization
            &&& tokens.len() == 1
            &&& vstd::utf8::encode_utf8(tokens[0]).len() == 64
            &&& storage == Status::Initialized
            &&& table matches Some(m) && m.contains_key(spec_sha256(tokens[0]))
                && m[spec_sha256(tokens[0])] == e && e > now
        },
        (has_authorization || tokens.len() != 1 || vstd::utf8::encode_utf8(tokens[0]).len() != 64)
            ==> authentication_spec(has_authorization, tokens, storage, table, now) == Err::<i64, AuthFailure>(AuthFailure::SessionInvalid),
        authentication_spec(has_authorization, tokens, storage, table, now) == Err::<i64, AuthFailure>(AuthFailure::Unavailable)
            <==> ({
                &&& !has_authorization && tokens.len() == 1 && vstd::utf8::encode_utf8(tokens[0]).len() == 64
                &&& (storage != Status::Initialized || table is None)
            }),
{
}

/// The Set-Cookie value that hands out a session token.
pub open spec fn session_cookie_spec(token: Seq<char>) -> Seq<char> {
    "__Host-filehop="@ + token + "; Path=/; Secure; HttpOnly; SameSite=Lax; Max-Age=43200"@
}

/// The Set-Cookie value for a new session: host-only, Secure, HttpOnly, SameSite=Lax,
/// path `/`, and a Max-Age of the session lifetime.
pub fn session_cookie(token: &str) -> (r: String)
    ensures
        r@ == session_cookie_spec(token@),
{
    let mut r = String::from_str("__Host-filehop=");
    r.append(token);
    r.append("; Path=/; Secure; HttpOnly; SameSite=Lax; Max-Age=43200");
    r
}

/// The loopback address that stands for a request without connection information.
pub open spec fn loopback() -> Source {
    Source { v6: false, bits: 0x7f00_0001 }
}

/// The source a login is counted against: the TCP peer (loopback when unknown), except
/// that a request from the one trusted proxy is counted against the single address in its
/// `X-FileHop-Client-IP` header (`forwarded`, already read as an address), and is refused
/// (`None`) when that header holds no address.
pub fn client_source(peer: Option<Source>, trusted_proxy: Option<Source>, forwarded: Option<Source>) -> (r: Option<Source>)
    ensures
        ({
            let p = match peer { Some(p) => p, None => loopback() };
            if trusted_proxy == Some(p) {
                r == forwarded
            } else {
                r == Some(p)
            }
        }),
{
    let p = match peer {
        Some(p) => p,
        None => Source { v6: false, bits: 0x7f00_0001 },
    };
    let trusted = match trusted_proxy {
        Some(t) => t == p,
        None => false,
    };
    if trusted {
        forwarded
    } else {
        Some(p)
    }
}

} // verus!
