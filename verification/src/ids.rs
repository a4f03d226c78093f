//! Identifiers: canonical UUID text for send, attempt and file identifiers, and fresh
//! identifiers from the `uuid` crate.
use vstd::prelude::*;

verus! {

/// Whether `c` is a lower-case hexadecimal digit.
pub open spec fn is_lower_hex(c: char) -> bool {
    ('0' <= c <= '9') || ('a' <= c <= 'f')
}

/// Whether `i` is one of the positions of the hyphens in the hyphenated UUID form.
pub open spec fn is_hyphen_position(i: int) -> bool {
    i == 8 || i == 13 || i == 18 || i == 23
}

/// Whether `s` is a UUID in lower-case hyphenated form (`xxxxxxxx-xxxx-xxxx-xxxx-xxxxxxxxxxxx`).
pub open spec fn is_hyphenated_uuid(s: Seq<char>) -> bool {
    &&& s.len() == 36
    &&& forall|i: int|
        0 <= i < 36 ==> if is_hyphen_position(i) {
            s[i] == '-'
        } else {
            is_lower_hex(#[trigger] s[i])
        }
}

/// What `uuid::Uuid::parse_str` followed by `to_string` gives for `raw`: `None` where the
/// text is no UUID in any form that the crate accepts, else the UUID's canonical text.
pub uninterp spec fn spec_canonical_uuid(raw: Seq<char>) -> Option<Seq<char>>;

/// Calls `uuid::Uuid::parse_str` and formats the parsed UUID with `Display`. The contract
/// names the result and states only what the crate's formatting code shows: the
/// canonical text is the lower-case hyphenated form.
#[verifier::external_body]
pub fn canonical_uuid(raw: &str) -> (r: Option<String>)
    ensures
        match r {
            Some(s) => spec_canonical_uuid(raw@) == Some(s@),
            None => spec_canonical_uuid(raw@) is None,
        },
        r matches Some(s) ==> is_hyphenated_uuid(s@),
{
    uuid::Uuid::parse_str(raw).ok().map(|u| u.to_string())
}

/// Whether `c` is a hexadecimal digit whose two high bits are `10`: the digit that carries
/// the RFC 4122 variant.
pub open spec fn is_variant_digit(c: char) -> bool {
    c == '8' || c == '9' || c == 'a' || c == 'b'
}

/// Whether `s` is a random (version 4, RFC 4122 variant) UUID in lower-case hyphenated
/// form: the version digit is `4` and the variant digit is one of `8`, `9`, `a`, `b`.
pub open spec fn is_v4_uuid(s: Seq<char>) -> bool {
    &&& is_hyphenated_uuid(s)
    &&& s[14] == '4'
    &&& is_variant_digit(s[19])
}

/// Calls `uuid::Uuid::new_v4` and formats the random UUID with `Display`. Which UUID
/// comes back depends on the random source, so the contract states its form: the
/// hyphenated text with the version and variant digits that `new_v4`'s mask fixes.
#[verifier::external_body]
pub fn fresh_uuid() -> (r: String)
    ensures
        is_v4_uuid(r@),
{
    uuid::Uuid::new_v4().to_string()
}

/// Whether `s` is `n` lower-case hexadecimal digits.
pub open spec fn is_hex_text(s: Seq<char>, n: nat) -> bool {
    s.len() == n && forall|i: int| 0 <= i < s.len() ==> is_lower_hex(#[trigger] s[i])
}

/// Whether `c` is not a hyphen.
pub open spec fn not_hyphen(c: char) -> bool {
    c != '-'
}

/// The simple form of a UUID's text: the text without its hyphens.
pub open spec fn simple_form(s: Seq<char>) -> Seq<char> {
    s.filter(|c: char| not_hyphen(c))
}

/// Whether `s` is a random UUID in its 32-digit simple form: lower-case hexadecimal, with
/// the version digit `4` and a variant digit.
pub open spec fn is_v4_simple(s: Seq<char>) -> bool {
    &&& is_hex_text(s, 32)
    &&& s[12] == '4'
    &&& is_variant_digit(s[16])
}

/// A fresh random UUID in its 32-digit simple form, as `Uuid::new_v4().simple()` prints it:
/// the hyphenated text of a fresh UUID with the hyphens taken out.
pub fn fresh_simple_uuid() -> (r: String)
    ensures
        exists|h: Seq<char>| is_v4_uuid(h) && r@ == simple_form(h),
        is_v4_simple(r@),
{
    let h = fresh_uuid();
    let v = crate::chars::chars_of(h.as_str());
    let ghost nh = |c: char| not_hyphen(c);
    let mut r = String::new();
    let mut i: usize = 0;
    while i < 36
        invariant
            v@ == h@,
            is_v4_uuid(v@),
            nh == (|c: char| not_hyphen(c)),
            i <= 36,
            r@ == v@.take(i as int).filter(nh),
            r@.len() == i - (if i > 23 { 4int } else if i > 18 { 3 } else if i > 13 { 2 } else if i > 8 { 1 } else { 0 }),
            forall|k: int| 0 <= k < r@.len() ==> is_lower_hex(#[trigger] r@[k]),
            i > 14 ==> r@[12] == '4',
            i > 19 ==> is_variant_digit(r@[16]),
        decreases 36 - i,
    {
        let c = v[i];
        proof {
            assert(v@.take(i + 1) =~= v@.take(i as int).push(c));
            v@.take(i as int).lemma_filter_push(c, nh);
            if is_hyphen_position(i as int) {
                assert(c == '-');
            } else {
                assert(is_lower_hex(v@[i as int]));
            }
        }
        if c != '-' {
            crate::chars::push_char(&mut r, c);
        }
        i = i + 1;
    }
    proof {
        assert(v@.take(36) =~= v@);
        assert(simple_form(h@) == v@.filter(nh)) by {
            assert(nh =~= (|c: char| not_hyphen(c)));
        }
    }
    r
}

} // verus!
