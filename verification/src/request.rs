//! Construction of the URL of an authenticated request.

use crate::authorization::Authorization;
use vstd::prelude::*;
use vstd::utf8::encode_utf8;

verus! {

/// Where the service answers: every request URL starts with this.
pub const BASE_URL: &'static str = "https://api.trello.com/1/";

/// The characters that count as white space: those with the Unicode
/// property `White_Space`.
pub open spec fn is_whitespace(c: char) -> bool {
    ||| '\u{9}' <= c <= '\u{d}'
    ||| c == ' '
    ||| c == '\u{85}'
    ||| c == '\u{a0}'
    ||| c == '\u{1680}'
    ||| '\u{2000}' <= c <= '\u{200a}'
    ||| c == '\u{2028}'
    ||| c == '\u{2029}'
    ||| c == '\u{202f}'
    ||| c == '\u{205f}'
    ||| c == '\u{3000}'
}

/// `s` without the white space that it starts with.
pub open spec fn trim_start(s: Seq<char>) -> Seq<char>
    decreases s.len(),
{
    if s.len() > 0 && is_whitespace(s[0]) {
        trim_start(s.drop_first())
    } else {
        s
    }
}

/// `s` without the white space that it ends with.
pub open spec fn trim_end(s: Seq<char>) -> Seq<char>
    decreases s.len(),
{
    if s.len() > 0 && is_whitespace(s.last()) {
        trim_end(s.drop_last())
    } else {
        s
    }
}

/// `s` without the white space at either end.
pub open spec fn trim(s: Seq<char>) -> Seq<char> {
    trim_end(trim_start(s))
}

/// The bytes that a query carries as they are: ASCII letters and digits and
/// `*`, `-`, `.`, `_`.
pub open spec fn is_unreserved(b: u8) -> bool {
    ||| 0x30 <= b <= 0x39
    ||| 0x41 <= b <= 0x5a
    ||| 0x61 <= b <= 0x7a
    ||| b == 0x2a
    ||| b == 0x2d
    ||| b == 0x2e
    ||| b == 0x5f
}

/// The upper-case hexadecimal digit of `n`, for `n` from 0 to 15.
pub open spec fn hex_digit(n: int) -> char {
    if n < 10 {
        (0x30 + n) as char
    } else {
        (0x37 + n) as char
    }
}

/// One byte as a query carries it: itself where it is unreserved, `+` for a
/// space, and otherwise `%` and the byte's two hexadecimal digits.
pub open spec fn encode_byte(b: u8) -> Seq<char> {
    if is_unreserved(b) {
        seq![b as char]
    } else if b == 0x20 {
        seq!['+']
    } else {
        seq!['%', hex_digit(b as int / 16), hex_digit(b as int % 16)]
    }
}

/// The bytes as a query carries them, one after the other.
pub open spec fn encode_bytes(bytes: Seq<u8>) -> Seq<char>
    decreases bytes.len(),
{
    if bytes.len() == 0 {
        Seq::empty()
    } else {
        encode_bytes(bytes.drop_last()) + encode_byte(bytes.last())
    }
}

/// A name or a value as a query carries it: its UTF-8 bytes, encoded one by
/// one.
pub open spec fn form_encode(text: Seq<char>) -> Seq<char> {
    encode_bytes(encode_utf8(text))
}

/// The caller's parameters in the query: each as `name=value`, both encoded,
/// with `&` after it, in the order given.
pub open spec fn extra_query(params: Seq<(Seq<char>, Seq<char>)>) -> Seq<char>
    decreases params.len(),
{
    if params.len() == 0 {
        Seq::empty()
    } else {
        extra_query(params.drop_last()) + form_encode(params.last().0) + seq!['=']
            + form_encode(params.last().1) + seq!['&']
    }
}

/// The two parameters that carry the credentials: the key, then the token or
/// the secret.
pub open spec fn credential_query(auth: Authorization) -> Seq<char> {
    match auth {
        Authorization::AppKeyAndToken(key, token) => "key="@ + form_encode(key@) + "&token="@
            + form_encode(token@),
        Authorization::AppKeyAndSecret(key, secret) => "key="@ + form_encode(key@) + "&secret="@
            + form_encode(secret@),
    }
}

/// The parameters of a request as pairs of character sequences; none where
/// the caller gave none.
pub open spec fn params_view(extra_params: Option<&[(&str, &str)]>) -> Seq<(Seq<char>, Seq<char>)> {
    match extra_params {
        Some(params) => Seq::new(params@.len(), |i: int| (params@[i].0@, params@[i].1@)),
        None => Seq::empty(),
    }
}

/// The URL of the request for `method`: the base of the service, the method
/// without the white space around it, and the query, in which the caller's
/// parameters come first and the credentials last.
pub open spec fn request_url(
    auth: Authorization,
    method: Seq<char>,
    params: Seq<(Seq<char>, Seq<char>)>,
) -> Seq<char> {
    BASE_URL@ + trim(method) + seq!['?'] + extra_query(params) + credential_query(auth)
}

/// Where the white space at the start of `s` ends: `trim_start` drops the
/// characters before that place, all of them white space, and what it leaves
/// does not start with white space.
pub proof fn lemma_trim_start_bound(s: Seq<char>) -> (from: int)
    ensures
        0 <= from <= s.len(),
        trim_start(s) == s.subrange(from, s.len() as int),
        forall|i: int| 0 <= i < from ==> is_whitespace(s[i]),
        from < s.len() ==> !is_whitespace(s[from]),
    decreases s.len(),
{
    if s.len() > 0 && is_whitespace(s[0]) {
        let rest = s.drop_first();
        let from = lemma_trim_start_bound(rest);
        assert(rest.subrange(from, rest.len() as int) =~= s.subrange(from + 1, s.len() as int));
        assert forall|i: int| 0 <= i < from + 1 implies is_whitespace(s[i]) by {
            if i > 0 {
                assert(s[i] == rest[i - 1]);
            }
        }
        from + 1
    } else {
        assert(s =~= s.subrange(0, s.len() as int));
        0
    }
}

/// Where the white space at the end of `s` starts: `trim_end` drops the
/// characters from that place on, all of them white space, and what it
/// leaves does not end with white space.
pub proof fn lemma_trim_end_bound(s: Seq<char>) -> (to: int)
    ensures
        0 <= to <= s.len(),
        trim_end(s) == s.subrange(0, to),
        forall|i: int| to <= i < s.len() ==> is_whitespace(s[i]),
        0 < to ==> !is_whitespace(s[to - 1]),
    decreases s.len(),
{
    if s.len() > 0 && is_whitespace(s.last()) {
        let rest = s.drop_last();
        let to = lemma_trim_end_bound(rest);
        assert(rest.subrange(0, to) =~= s.subrange(0, to));
        assert forall|i: int| to <= i < s.len() implies is_whitespace(s[i]) by {
            if i < rest.len() {
                assert(s[i] == rest[i]);
            }
        }
        to
    } else {
        assert(s =~= s.subrange(0, s.len() as int));
        s.len() as int
    }
}

/// Trimming leaves one stretch of `s`: all that is dropped before it and
/// after it is white space, and the stretch neither starts nor ends with
/// white space.
pub proof fn lemma_trim_bounds(s: Seq<char>) -> (bounds: (int, int))
    ensures
        0 <= bounds.0 <= bounds.1 <= s.len(),
        trim(s) == s.subrange(bounds.0, bounds.1),
        forall|i: int| 0 <= i < bounds.0 ==> is_whitespace(s[i]),
        forall|i: int| bounds.1 <= i < s.len() ==> is_whitespace(s[i]),
        bounds.0 < bounds.1 ==> !is_whitespace(s[bounds.0]) && !is_whitespace(s[bounds.1 - 1]),
{
    let from = lemma_trim_start_bound(s);
    let tail = s.subrange(from, s.len() as int);
    let len = lemma_trim_end_bound(tail);
    assert(tail.subrange(0, len) =~= s.subrange(from, from + len));
    assert forall|i: int| from + len <= i < s.len() implies is_whitespace(s[i]) by {
        assert(s[i] == tail[i - from]);
    }
    if len > 0 {
        assert(s[from + len - 1] == tail[len - 1]);
    }
    (from, from + len)
}

/// The characters that encoded text is made of: ASCII letters and digits and
/// `*`, `-`, `.`, `_`, `+`, `%`. None of them parts a query.
pub open spec fn is_query_safe(c: char) -> bool {
    ||| '0' <= c <= '9'
    ||| 'A' <= c <= 'Z'
    ||| 'a' <= c <= 'z'
    ||| c == '*'
    ||| c == '-'
    ||| c == '.'
    ||| c == '_'
    ||| c == '+'
    ||| c == '%'
}

/// Encoded bytes hold query-safe characters only, and at least one and at
/// most three of them for each byte.
pub proof fn lemma_encoded_bytes_are_query_safe(bytes: Seq<u8>)
    ensures
        bytes.len() <= encode_bytes(bytes).len() <= 3 * bytes.len(),
        forall|i: int|
            0 <= i < encode_bytes(bytes).len() ==> is_query_safe(#[trigger] encode_bytes(bytes)[i]),
    decreases bytes.len(),
{
    if bytes.len() > 0 {
        lemma_encoded_bytes_are_query_safe(bytes.drop_last());
        let b = bytes.last();
        assert(forall|i: int| 0 <= i < encode_byte(b).len() ==> is_query_safe(encode_byte(b)[i]));
    }
}

/// Encoded text holds query-safe characters only: no `&`, `=`, `?` or `#`
/// of a name or a value reaches the URL as it is.
pub proof fn lemma_encoded_text_is_query_safe(text: Seq<char>)
    ensures
        forall|i: int|
            0 <= i < form_encode(text).len() ==> is_query_safe(#[trigger] form_encode(text)[i]),
{
    lemma_encoded_bytes_are_query_safe(encode_utf8(text));
}

fn char_is_whitespace(c: char) -> (b: bool)
    ensures
        b == is_whitespace(c),
{
    ('\u{9}' <= c && c <= '\u{d}') || c == ' ' || c == '\u{85}' || c == '\u{a0}' || c
        == '\u{1680}' || ('\u{2000}' <= c && c <= '\u{200a}') || c == '\u{2028}' || c
        == '\u{2029}' || c == '\u{202f}' || c == '\u{205f}' || c == '\u{3000}'
}

fn chars_of(text: &str) -> (chars: Vec<char>)
    ensures
        chars@ == text@,
{
    let mut chars: Vec<char> = Vec::new();
    for c in it: text.chars()
        invariant
            it.seq() == text@,
            chars@ == it.seq().take(it.index() as int),
    {
        chars.push(c);
    }
    chars
}

proof fn lemma_trim_start_step(s: Seq<char>, from: int)
    requires
        0 <= from < s.len(),
        is_whitespace(s[from]),
    ensures
        trim_start(s.subrange(from, s.len() as int)) == trim_start(
            s.subrange(from + 1, s.len() as int),
        ),
{
    let rest = s.subrange(from, s.len() as int);
    assert(rest.drop_first() =~= s.subrange(from + 1, s.len() as int));
}

proof fn lemma_trim_end_step(s: Seq<char>, from: int, to: int)
    requires
        0 <= from < to <= s.len(),
        is_whitespace(s[to - 1]),
    ensures
        trim_end(s.subrange(from, to)) == trim_end(s.subrange(from, to - 1)),
{
    let rest = s.subrange(from, to);
    assert(rest.drop_last() =~= s.subrange(from, to - 1));
}

fn push_trimmed(url: &mut String, text: &str)
    ensures
        final(url)@ == old(url)@ + trim(text@),
{
    let chars = chars_of(text);
    let n = chars.len();
    let mut from: usize = 0;
    assert(chars@ =~= chars@.subrange(0, n as int));
    while from < n && char_is_whitespace(chars[from])
        invariant
            n == chars.len(),
            from <= n,
            trim_start(chars@) == trim_start(chars@.subrange(from as int, n as int)),
        decreases n - from,
    {
        proof {
            lemma_trim_start_step(chars@, from as int);
        }
        from += 1;
    }
    assert(trim_start(chars@) == chars@.subrange(from as int, n as int));
    let mut to: usize = n;
    while to > from && char_is_whitespace(chars[to - 1])
        invariant
            n == chars.len(),
            from <= to <= n,
            trim(chars@) == trim_end(chars@.subrange(from as int, to as int)),
        decreases to,
    {
        proof {
            lemma_trim_end_step(chars@, from as int, to as int);
        }
        to -= 1;
    }
    assert(trim(chars@) == chars@.subrange(from as int, to as int));
    let mut i: usize = from;
    while i < to
        invariant
            n == chars.len(),
            from <= i <= to <= n,
            url@ == old(url)@ + chars@.subrange(from as int, i as int),
        decreases to - i,
    {
        url.push(chars[i]);
        assert(chars@.subrange(from as int, i + 1) =~= chars@.subrange(from as int, i as int).push(
            chars@[i as int],
        ));
        i += 1;
    }
}

fn hex_digit_of(n: u8) -> (c: char)
    requires
        n < 16,
    ensures
        c == hex_digit(n as int),
{
    if n < 10 {
        (0x30 + n) as char
    } else {
        (0x37 + n) as char
    }
}

fn byte_is_unreserved(b: u8) -> (r: bool)
    ensures
        r == is_unreserved(b),
{
    (0x30 <= b && b <= 0x39) || (0x41 <= b && b <= 0x5a) || (0x61 <= b && b <= 0x7a) || b == 0x2a
        || b == 0x2d || b == 0x2e || b == 0x5f
}

fn push_encoded_byte(url: &mut String, b: u8)
    ensures
        final(url)@ == old(url)@ + encode_byte(b),
{
    if byte_is_unreserved(b) {
        url.push(b as char);
        assert(url@ =~= old(url)@ + encode_byte(b));
    } else if b == 0x20 {
        url.push('+');
        assert(url@ =~= old(url)@ + encode_byte(b));
    } else {
        url.push('%');
        url.push(hex_digit_of(b / 16));
        url.push(hex_digit_of(b % 16));
        assert(url@ =~= old(url)@ + encode_byte(b));
    }
}

fn push_encoded(url: &mut String, text: &str)
    ensures
        final(url)@ == old(url)@ + form_encode(text@),
{
    let bytes = text.as_bytes();
    let mut i: usize = 0;
    while i < bytes.len()
        invariant
            i <= bytes.len(),
            bytes@ == encode_utf8(text@),
            url@ == old(url)@ + encode_bytes(bytes@.take(i as int)),
        decreases bytes.len() - i,
    {
        push_encoded_byte(url, bytes[i]);
        proof {
            let next = bytes@.take(i + 1);
            assert(next.drop_last() =~= bytes@.take(i as int));
            assert(url@ =~= old(url)@ + encode_bytes(next));
        }
        i += 1;
    }
    assert(bytes@.take(i as int) =~= bytes@);
}

fn push_extra(url: &mut String, params: &[(&str, &str)])
    ensures
        final(url)@ == old(url)@ + extra_query(params_view(Some(params))),
{
    let ghost all = params_view(Some(params));
    let mut i: usize = 0;
    while i < params.len()
        invariant
            i <= params.len(),
            all == params_view(Some(params)),
            url@ == old(url)@ + extra_query(all.take(i as int)),
        decreases params.len() - i,
    {
        let ghost before = url@;
        push_encoded(url, params[i].0);
        url.push('=');
        push_encoded(url, params[i].1);
        url.push('&');
        proof {
            let next = all.take(i + 1);
            assert(next.drop_last() =~= all.take(i as int));
            assert(next.last() == (params@[i as int].0@, params@[i as int].1@));
            assert(url@ =~= before + form_encode(next.last().0) + seq!['='] + form_encode(
                next.last().1,
            ) + seq!['&']);
            assert(url@ =~= old(url)@ + extra_query(next));
        }
        i += 1;
    }
    assert(all.take(i as int) =~= all);
}

fn push_credentials(url: &mut String, auth: &Authorization)
    ensures
        final(url)@ == old(url)@ + credential_query(*auth),
{
    match auth {
        Authorization::AppKeyAndToken(key, token) => {
            url.append("key=");
            push_encoded(url, key.as_str());
            url.append("&token=");
            push_encoded(url, token.as_str());
            assert(url@ =~= old(url)@ + credential_query(*auth));
        },
        Authorization::AppKeyAndSecret(key, secret) => {
            url.append("key=");
            push_encoded(url, key.as_str());
            url.append("&secret=");
            push_encoded(url, secret.as_str());
            assert(url@ =~= old(url)@ + credential_query(*auth));
        },
    }
}

/// The URL of the request for `method` with the caller's parameters and the
/// credentials of `auth`.
pub fn build_url(auth: &Authorization, method: &str, extra_params: Option<&[(&str, &str)]>) -> (url:
    String)
    ensures
        url@ == request_url(*auth, method@, params_view(extra_params)),
{
    let mut url = String::from_str(BASE_URL);
    push_trimmed(&mut url, method);
    url.push('?');
    match extra_params {
        Some(params) => {
            push_extra(&mut url, params);
        },
        None => {},
    }
    push_credentials(&mut url, auth);
    assert(url@ =~= request_url(*auth, method@, params_view(extra_params)));
    url
}

} // verus!
