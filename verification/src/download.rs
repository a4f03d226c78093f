//! The attachment header of a download: the stored name is stripped of characters that
//! could break out of the header or the download directory, then percent-encoded.
use crate::chars::{chars_of, push_char, string_of};
use vstd::prelude::*;

verus! {

broadcast use vstd::string::group_string_axioms;

/// Whether `c` is a control character (general category Cc).
pub open spec fn is_control(c: char) -> bool {
    c <= '\u{1f}' || ('\u{7f}' <= c <= '\u{9f}')
}

/// Whether a name character survives into the download name.
pub open spec fn keeps(c: char) -> bool {
    !is_control(c) && c != '/' && c != '\\' && c != '\u{202e}' && c != '\u{202d}'
}

/// The name offered for download: the stored name without control characters, path
/// separators and bidirectional overrides, or `download` when nothing is left.
pub open spec fn safe_name(name: Seq<char>) -> Seq<char> {
    let f = name.filter(|c: char| keeps(c));
    if f.len() == 0 {
        "download"@
    } else {
        f
    }
}

/// Whether a byte may appear unencoded in an RFC 5987 value.
pub open spec fn attr_byte(b: u8) -> bool {
    (48 <= b <= 57) || (65 <= b <= 90) || (97 <= b <= 122) || b == 33 || b == 35 || b == 36
        || b == 38 || b == 43 || b == 45 || b == 46 || b == 94 || b == 95 || b == 96 || b == 124
        || b == 126
}

/// The upper-case hexadecimal digit of `n` (below 16).
pub open spec fn hex_digit(n: u8) -> char {
    if n < 10 {
        (48 + n) as char
    } else {
        (55 + n) as char
    }
}

/// One byte in an RFC 5987 value: itself when allowed, else `%` and two upper-case digits.
pub open spec fn encode_byte(b: u8) -> Seq<char> {
    if attr_byte(b) {
        seq![b as char]
    } else {
        seq!['%', hex_digit(b / 16), hex_digit(b % 16)]
    }
}

/// The RFC 5987 encoding of a byte string.
pub open spec fn pct_encode(bs: Seq<u8>) -> Seq<char>
    decreases bs.len(),
{
    if bs.len() == 0 {
        Seq::empty()
    } else {
        pct_encode(bs.drop_last()) + encode_byte(bs.last())
    }
}

/// The Content-Disposition value for a stored file name.
pub open spec fn disposition(name: Seq<char>) -> Seq<char> {
    "attachment; filename*=UTF-8''"@ + pct_encode(vstd::utf8::encode_utf8(safe_name(name)))
}

fn keeps_char(c: char) -> (r: bool)
    ensures
        r == keeps(c),
{
    !(c <= '\u{1f}' || ('\u{7f}' <= c && c <= '\u{9f}')) && c != '/' && c != '\\' && c != '\u{202e}'
        && c != '\u{202d}'
}

fn hex(n: u8) -> (r: char)
    requires
        n < 16,
    ensures
        r == hex_digit(n),
{
    if n < 10 {
        (48 + n) as char
    } else {
        (55 + n) as char
    }
}

fn is_attr_byte(b: u8) -> (r: bool)
    ensures
        r == attr_byte(b),
{
    (48 <= b && b <= 57) || (65 <= b && b <= 90) || (97 <= b && b <= 122) || b == 33 || b == 35
        || b == 36 || b == 38 || b == 43 || b == 45 || b == 46 || b == 94 || b == 95 || b == 96
        || b == 124 || b == 126
}

/// The download name of a stored file name.
pub fn download_name(name: &str) -> (r: String)
    ensures
        r@ == safe_name(name@),
{
    let v = chars_of(name);
    let ghost keep = |c: char| keeps(c);
    let mut kept: Vec<char> = Vec::new();
    let mut i: usize = 0;
    while i < v.len()
        invariant
            i <= v.len(),
            keep == (|c: char| keeps(c)),
            kept@ == v@.take(i as int).filter(keep),
        decreases v.len() - i,
    {
        let c = v[i];
        proof {
            assert(v@.take(i + 1) == v@.take(i as int).push(c));
            v@.take(i as int).lemma_filter_push(c, keep);
        }
        if keeps_char(c) {
            kept.push(c);
        }
        i = i + 1;
    }
    proof {
        assert(v@.take(v@.len() as int) =~= v@);
    }
    if kept.len() == 0 {
        String::from_str("download")
    } else {
        string_of(&kept, 0, kept.len())
    }
}

/// The Content-Disposition value of a download: always an attachment, with the download
/// name in the RFC 5987 `filename*` form.
pub fn content_disposition(name: &str) -> (r: String)
    ensures
        r@ == disposition(name@),
{
    let safe = download_name(name);
    let bytes = safe.as_str().as_bytes();
    let mut r = String::from_str("attachment; filename*=UTF-8''");
    let ghost prefix = r@;
    let mut i: usize = 0;
    while i < bytes.len()
        invariant
            i <= bytes.len(),
            bytes@ == vstd::utf8::encode_utf8(safe@),
            r@ == prefix + pct_encode(bytes@.take(i as int)),
        decreases bytes.len() - i,
    {
        let b = bytes[i];
        proof {
            assert(bytes@.take(i + 1).drop_last() =~= bytes@.take(i as int));
            assert(bytes@.take(i + 1).last() == b);
        }
        if is_attr_byte(b) {
            push_char(&mut r, b as char);
        } else {
            push_char(&mut r, '%');
            push_char(&mut r, hex(b / 16));
            push_char(&mut r, hex(b % 16));
        }
        proof {
            assert(r@ =~= prefix + pct_encode(bytes@.take(i + 1)));
        }
        i = i + 1;
    }
    proof {
        assert(bytes@.take(bytes@.len() as int) =~= bytes@);
    }
    r
}

/// Whether `c` may stand in a header value without ending or splitting it: visible ASCII
/// or a space, and not a double quote.
pub open spec fn header_safe(c: char) -> bool {
    ' ' <= c <= '~' && c != '"'
}

proof fn lemma_pct_encode_safe(bs: Seq<u8>)
    ensures
        forall|i: int| 0 <= i < pct_encode(bs).len() ==> header_safe(#[trigger] pct_encode(bs)[i]),
    decreases bs.len(),
{
    if bs.len() > 0 {
        lemma_pct_encode_safe(bs.drop_last());
        let b = bs.last();
        let e = encode_byte(b);
        let p = pct_encode(bs.drop_last());
        assert forall|i: int| 0 <= i < e.len() implies header_safe(#[trigger] e[i]) by {
            if !attr_byte(b) {
                assert(b / 16 < 16 && b % 16 < 16);
            }
        }
        assert forall|i: int| 0 <= i < pct_encode(bs).len() implies header_safe(#[trigger] pct_encode(bs)[i]) by {
            if i < p.len() {
                assert(pct_encode(bs)[i] == p[i]);
            } else {
                assert(pct_encode(bs)[i] == e[i - p.len()]);
            }
        }
    }
}

/// Whatever the stored name holds, the Content-Disposition value is printable ASCII
/// without a double quote: no line break or quote can inject a header or end the value.
pub proof fn lemma_disposition_header_safe(name: Seq<char>)
    ensures
        forall|i: int| 0 <= i < disposition(name).len() ==> header_safe(#[trigger] disposition(name)[i]),
{
    reveal_strlit("attachment; filename*=UTF-8''");
    let prefix = "attachment; filename*=UTF-8''"@;
    let body = pct_encode(vstd::utf8::encode_utf8(safe_name(name)));
    lemma_pct_encode_safe(vstd::utf8::encode_utf8(safe_name(name)));
    assert forall|i: int| 0 <= i < disposition(name).len() implies header_safe(#[trigger] disposition(name)[i]) by {
        if i < prefix.len() {
            assert(disposition(name)[i] == prefix[i]);
        } else {
            assert(disposition(name)[i] == body[i - prefix.len()]);
        }
    }
}

proof fn lemma_filter_keeps_all(s: Seq<char>, p: spec_fn(char) -> bool)
    requires
        forall|i: int| 0 <= i < s.len() ==> p(#[trigger] s[i]),
    ensures
        s.filter(p) == s,
    decreases s.len(),
{
    reveal(Seq::filter);
    if s.len() > 0 {
        assert forall|i: int| 0 <= i < s.drop_last().len() implies p(#[trigger] s.drop_last()[i]) by {
            assert(s.drop_last()[i] == s[i]);
        }
        lemma_filter_keeps_all(s.drop_last(), p);
        assert(s.drop_last().push(s.last()) =~= s);
    }
}

/// Only what could break the header or the download path is taken out of a name: every
/// character of the stored name that is not a control character (U+0000..U+001F,
/// U+007F..U+009F), a slash, a backslash or a bidirectional override (U+202D, U+202E)
/// survives into the download name, and nothing else does. A non-empty name made only of
/// such characters (accented letters, CJK, spaces, punctuation) is offered unchanged.
pub proof fn lemma_download_name_keeps_text(name: Seq<char>)
    ensures
        forall|i: int| 0 <= i < name.len() && !(name[i] <= '\u{1f}' || ('\u{7f}' <= name[i] && name[i] <= '\u{9f}'))
            && name[i] != '/' && name[i] != '\\' && name[i] != '\u{202d}' && name[i] != '\u{202e}'
            ==> safe_name(name).contains(#[trigger] name[i]),
        (name.len() > 0 && forall|i: int| 0 <= i < name.len() ==> {
            let c = #[trigger] name[i];
            !(c <= '\u{1f}' || ('\u{7f}' <= c && c <= '\u{9f}')) && c != '/' && c != '\\' && c != '\u{202d}'
                && c != '\u{202e}'
        }) ==> safe_name(name) == name,
{
    let p = |c: char| keeps(c);
    assert forall|i: int| 0 <= i < name.len() && !(name[i] <= '\u{1f}' || ('\u{7f}' <= name[i] && name[i] <= '\u{9f}'))
        && name[i] != '/' && name[i] != '\\' && name[i] != '\u{202d}' && name[i] != '\u{202e}'
        implies safe_name(name).contains(#[trigger] name[i]) by {
        name.lemma_filter_contains(p, i);
    }
    if name.len() > 0 && forall|i: int| 0 <= i < name.len() ==> {
        let c = #[trigger] name[i];
        !(c <= '\u{1f}' || ('\u{7f}' <= c && c <= '\u{9f}')) && c != '/' && c != '\\' && c != '\u{202d}'
            && c != '\u{202e}'
    } {
        lemma_filter_keeps_all(name, p);
    }
}

/// Whether a stored entity matches its record: a regular file of exactly the recorded,
/// non-negative size.
pub fn entity_intact(recorded_size: i64, is_regular_file: bool, length: u64) -> (r: bool)
    ensures
        r == (recorded_size >= 0 && is_regular_file && length == recorded_size),
{
    recorded_size >= 0 && is_regular_file && length == recorded_size as u64
}

} // verus!
