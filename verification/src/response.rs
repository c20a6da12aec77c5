//! What the downloader reads out of Reddit's responses: whether a status is a
//! success, the cookies of its `set-cookie` headers, and the CSRF token of the
//! login page; and the form that it sends back.

use vstd::prelude::*;
use vstd::utf8::{encode_utf8, is_char_boundary, valid_utf8};

use crate::bindings::utf8_text;
use crate::reddit::REDDIT_URL;
use crate::text::{
    before_first, first_index_of, first_occurrence, has_prefix, pieces_of, split_on,
    strip_prefix_repeatedly, trim_ascii,
};
use crate::text::{
    copy_range, find_bytes, has_prefix_in, index_in, lemma_ascii_valid_utf8, split_ranges,
    strip_prefixes_in, trim_ascii_in,
};

verus! {

/// A header as the downloader receives it: its (lower-case) name and the
/// bytes of its value.
pub type HeaderLine = (String, Vec<u8>);

/// A status in the 2xx range, as `StatusCode::is_success` has it.
pub open spec fn is_success(status: u16) -> bool {
    200 <= status < 300
}

/// Whether a response with this status succeeded.
pub fn status_is_success(status: u16) -> (success: bool)
    ensures
        success == is_success(status),
{
    200 <= status && status < 300
}

/// Bytes that `HeaderValue::to_str` accepts: visible ASCII and tabs.
pub open spec fn is_header_text(value: Seq<u8>) -> bool {
    forall|i: int| 0 <= i < value.len() ==> 32 <= #[trigger] value[i] < 127 || value[i] == 9
}

/// The header is a `set-cookie` header.
pub open spec fn is_set_cookie(header: HeaderLine) -> bool {
    header.0@ == "set-cookie"@
}

/// Every `set-cookie` header among `headers` is text.
pub open spec fn set_cookies_are_text(headers: Seq<HeaderLine>) -> bool {
    forall|i: int|
        0 <= i < headers.len() && is_set_cookie(#[trigger] headers[i]) ==> is_header_text(
            headers[i].1@,
        )
}

/// Among the `;`-separated pieces of one `set-cookie` value, the first whose
/// trimmed text starts with `prefix` gives the cookie: that piece, untrimmed,
/// with `prefix` removed from its front as often as it occurs there.
pub open spec fn cookie_in_pieces(pieces: Seq<Seq<u8>>, prefix: Seq<u8>) -> Option<Seq<u8>>
    decreases pieces.len(),
{
    if pieces.len() == 0 {
        None
    } else if has_prefix(trim_ascii(pieces[0]), prefix) {
        Some(strip_prefix_repeatedly(pieces[0], prefix))
    } else {
        cookie_in_pieces(pieces.drop_first(), prefix)
    }
}

/// The cookie that one `set-cookie` value holds under `prefix`.
pub open spec fn cookie_in_value(value: Seq<u8>, prefix: Seq<u8>) -> Option<Seq<u8>> {
    cookie_in_pieces(split_on(value, ';' as u8), prefix)
}

/// The cookie under `prefix` of the last `set-cookie` header that holds one.
pub open spec fn cookie_in_headers(headers: Seq<HeaderLine>, prefix: Seq<u8>) -> Option<Seq<u8>>
    decreases headers.len(),
{
    if headers.len() == 0 {
        None
    } else {
        let last = headers.last();
        let here = if is_set_cookie(last) {
            cookie_in_value(last.1@, prefix)
        } else {
            None
        };
        if here is Some {
            here
        } else {
            cookie_in_headers(headers.drop_last(), prefix)
        }
    }
}

/// The `reddit_session` cookie among `headers`, up to its first `%`.
pub open spec fn session_cookie(headers: Seq<HeaderLine>) -> Option<Seq<u8>> {
    match cookie_in_headers(headers, encode_utf8("reddit_session="@)) {
        Some(v) => Some(before_first(v, '%' as u8)),
        None => None,
    }
}

/// The `token_v2` cookie (the JWT) among `headers`.
pub open spec fn jwt_cookie(headers: Seq<HeaderLine>) -> Option<Seq<u8>> {
    cookie_in_headers(headers, encode_utf8("token_v2="@))
}

/// Whether the value is text that `HeaderValue::to_str` accepts.
pub fn header_is_text(value: &[u8]) -> (text: bool)
    ensures
        text == is_header_text(value@),
{
    let mut i: usize = 0;
    while i < value.len()
        invariant
            i <= value@.len(),
            forall|k: int| 0 <= k < i ==> 32 <= #[trigger] value@[k] < 127 || value@[k] == 9,
        decreases value@.len() - i,
    {
        let b = value[i];
        if !(32 <= b && b < 127 || b == 9) {
            return false;
        }
        i = i + 1;
    }
    true
}

/// Whether every `set-cookie` header among `headers` is text, as reading
/// their cookies requires.
pub fn set_cookie_headers_are_text(headers: &Vec<HeaderLine>) -> (text: bool)
    ensures
        text == set_cookies_are_text(headers@),
{
    let name = "set-cookie".to_owned();
    let mut i: usize = 0;
    while i < headers.len()
        invariant
            i <= headers@.len(),
            name@ == "set-cookie"@,
            forall|k: int|
                0 <= k < i && is_set_cookie(#[trigger] headers@[k]) ==> is_header_text(
                    headers@[k].1@,
                ),
        decreases headers@.len() - i,
    {
        if headers[i].0 == name && !header_is_text(headers[i].1.as_slice()) {
            return false;
        }
        i = i + 1;
    }
    true
}

proof fn lemma_cookie_pieces_skip(pieces: Seq<Seq<u8>>, prefix: Seq<u8>, j: int)
    requires
        0 <= j < pieces.len(),
        !has_prefix(trim_ascii(pieces[j]), prefix),
    ensures
        cookie_in_pieces(pieces.skip(j), prefix) == cookie_in_pieces(pieces.skip(j + 1), prefix),
{
    assert(pieces.skip(j)[0] == pieces[j]);
    assert(pieces.skip(j).drop_first() =~= pieces.skip(j + 1));
}

/// Where, in one `set-cookie` value, the cookie under `prefix` lies.
fn cookie_range(value: &[u8], prefix: &[u8]) -> (found: Option<(usize, usize)>)
    ensures
        match found {
            Some((a, b)) => a <= b <= value@.len() && cookie_in_value(value@, prefix@) == Some(
                value@.subrange(a as int, b as int),
            ),
            None => cookie_in_value(value@, prefix@) is None,
        },
{
    let ranges = split_ranges(value, 0, value.len(), ';' as u8);
    let ghost pieces = pieces_of(value@, ranges@);
    proof {
        assert(value@.subrange(0, value@.len() as int) =~= value@);
        assert(pieces.skip(0) =~= pieces);
    }
    let mut j: usize = 0;
    while j < ranges.len()
        invariant
            j <= ranges@.len(),
            pieces == pieces_of(value@, ranges@),
            pieces == split_on(value@, ';' as u8),
            forall|k: int|
                0 <= k < ranges@.len() ==> 0 <= (#[trigger] ranges@[k]).0 <= ranges@[k].1
                    <= value@.len(),
            cookie_in_value(value@, prefix@) == cookie_in_pieces(pieces.skip(j as int), prefix@),
        decreases ranges@.len() - j,
    {
        let (a, b) = ranges[j];
        let (ta, tb) = trim_ascii_in(value, a, b);
        assert(pieces[j as int] == value@.subrange(a as int, b as int));
        if has_prefix_in(value, ta, tb, prefix) {
            let c = strip_prefixes_in(value, a, b, prefix);
            assert(pieces.skip(j as int)[0] == pieces[j as int]);
            return Some((c, b));
        }
        proof {
            lemma_cookie_pieces_skip(pieces, prefix@, j as int);
        }
        j = j + 1;
    }
    assert(pieces.skip(j as int).len() == 0);
    None
}

/// The bytes of the cookie under `prefix` of the last `set-cookie` header
/// that holds one.
pub fn find_cookie(headers: &Vec<HeaderLine>, prefix: &str) -> (found: Option<Vec<u8>>)
    requires
        set_cookies_are_text(headers@),
    ensures
        match found {
            Some(v) => cookie_in_headers(headers@, encode_utf8(prefix@)) == Some(v@)
                && is_header_text(v@),
            None => cookie_in_headers(headers@, encode_utf8(prefix@)) is None,
        },
{
    let p = prefix.as_bytes();
    let name = "set-cookie".to_owned();
    let mut found: Option<Vec<u8>> = None;
    let mut i: usize = 0;
    while i < headers.len()
        invariant
            i <= headers@.len(),
            name@ == "set-cookie"@,
            p@ == encode_utf8(prefix@),
            set_cookies_are_text(headers@),
            match found {
                Some(v) => cookie_in_headers(headers@.take(i as int), p@) == Some(v@)
                    && is_header_text(v@),
                None => cookie_in_headers(headers@.take(i as int), p@) is None,
            },
        decreases headers@.len() - i,
    {
        let ghost seen = headers@.take(i + 1);
        proof {
            assert(seen.drop_last() =~= headers@.take(i as int));
            assert(seen.last() == headers@[i as int]);
        }
        if headers[i].0 == name {
            let value = headers[i].1.as_slice();
            match cookie_range(value, p) {
                Some((a, b)) => {
                    let bytes = copy_range(value, a, b);
                    proof {
                        assert(is_header_text(value@));
                        assert forall|k: int| 0 <= k < bytes@.len() implies 32 <= #[trigger] bytes@[k]
                            < 127 || bytes@[k] == 9 by {
                            assert(bytes@[k] == value@[a + k]);
                        }
                    }
                    found = Some(bytes);
                },
                None => {},
            }
        }
        i = i + 1;
    }
    assert(headers@.take(headers@.len() as int) =~= headers@);
    found
}

/// Text of header bytes.
fn header_text_to_string(bytes: &[u8]) -> (s: String)
    requires
        is_header_text(bytes@),
    ensures
        encode_utf8(s@) == bytes@,
{
    proof {
        lemma_ascii_valid_utf8(bytes@);
    }
    let text = utf8_text(bytes);
    match text {
        Some(t) => t.to_owned(),
        None => {
            assert(false);
            String::new()
        },
    }
}

/// The `reddit_session` cookie that a login response sets, up to its first
/// `%`.
pub fn read_session_cookie(headers: &Vec<HeaderLine>) -> (session: Option<String>)
    requires
        set_cookies_are_text(headers@),
    ensures
        match session_cookie(headers@) {
            Some(v) => session matches Some(s) && encode_utf8(s@) == v,
            None => session is None,
        },
{
    match find_cookie(headers, "reddit_session=") {
        None => None,
        Some(v) => {
            let end = index_in(v.as_slice(), 0, v.len(), '%' as u8);
            let kept = copy_range(v.as_slice(), 0, end);
            proof {
                assert(v@.subrange(0, v@.len() as int) =~= v@);
                assert(kept@ =~= before_first(v@, '%' as u8));
                assert forall|k: int| 0 <= k < kept@.len() implies 32 <= #[trigger] kept@[k]
                    < 127 || kept@[k] == 9 by {
                    assert(kept@[k] == v@[k]);
                }
            }
            Some(header_text_to_string(kept.as_slice()))
        },
    }
}

/// The `token_v2` cookie, Reddit's JWT, that a response sets.
pub fn read_jwt_cookie(headers: &Vec<HeaderLine>) -> (jwt: Option<String>)
    requires
        set_cookies_are_text(headers@),
    ensures
        match jwt_cookie(headers@) {
            Some(v) => jwt matches Some(s) && encode_utf8(s@) == v,
            None => jwt is None,
        },
{
    match find_cookie(headers, "token_v2=") {
        None => None,
        Some(v) => Some(header_text_to_string(v.as_slice())),
    }
}

/// What precedes the CSRF token in the login page.
pub const CSRF_MARKER: &'static str = "<input type=\"hidden\" name=\"csrf_token\" value=\"";

/// Where the CSRF token of a login page with these bytes starts: after the
/// first CSRF marker, or as far into the page as the marker is long when the
/// page has none.
pub open spec fn csrf_start(page: Seq<u8>) -> int {
    let marker = encode_utf8(CSRF_MARKER@);
    match first_occurrence(page, marker) {
        Some(i) => i + marker.len(),
        None => marker.len() as int,
    }
}

/// The login page can be read from its CSRF start on: the start lies within
/// the page, on a character boundary.
pub open spec fn csrf_readable(page: Seq<char>) -> bool {
    let bytes = encode_utf8(page);
    csrf_start(bytes) <= bytes.len() && is_char_boundary(bytes, csrf_start(bytes))
}

/// The CSRF token of a login page with these bytes: from its start up to the
/// next `"` (the characters before the next `"`, since `"` is a single byte in
/// UTF-8).
pub open spec fn csrf_token_of(page: Seq<u8>) -> Seq<u8> {
    before_first(page.skip(csrf_start(page)), '"' as u8)
}

/// Whether the login page can be read from its CSRF start on.
pub fn csrf_token_readable(page: &str) -> (readable: bool)
    ensures
        readable == csrf_readable(page@),
{
    let bytes = page.as_bytes();
    let marker = CSRF_MARKER.as_bytes();
    let start = match find_bytes(bytes, marker) {
        Some(i) => i,
        None => 0,
    };
    if marker.len() > bytes.len() - start {
        return false;
    }
    page.is_char_boundary(start + marker.len())
}

/// The CSRF token that the login page holds.
pub fn extract_csrf_token(page: &str) -> (token: String)
    requires
        csrf_readable(page@),
    ensures
        encode_utf8(token@) == csrf_token_of(encode_utf8(page@)),
{
    let bytes = page.as_bytes();
    let marker = CSRF_MARKER.as_bytes();
    let start = match find_bytes(bytes, marker) {
        Some(i) => i,
        None => 0,
    };
    let page_len = bytes.len();
    assert(start + marker@.len() == csrf_start(bytes@) <= page_len);
    let from = start + marker.len();
    let (_, rest) = page.split_at(from);
    let rest_bytes = rest.as_bytes();
    let end = index_in(rest_bytes, 0, rest_bytes.len(), '"' as u8);
    proof {
        let rb = encode_utf8(rest@);
        vstd::utf8::encode_utf8_valid_utf8(rest@);
        assert(rb.subrange(0, rb.len() as int) =~= rb);
        if end < rb.len() {
            lemma_first_index_quote(rb, end as int);
            vstd::utf8::is_char_boundary_iff_not_is_continuation_byte(rb, end as int);
        } else {
            vstd::utf8::is_char_boundary_start_end_of_seq(rb);
        }
        assert(encode_utf8(page@).skip(from as int) =~= rb);
    }
    let (token, _) = rest.split_at(end);
    token.to_owned()
}

proof fn lemma_first_index_quote(s: Seq<u8>, i: int)
    requires
        0 <= i < s.len(),
        i == first_index_of(s, '"' as u8),
    ensures
        s[i] == '"' as u8,
{
    crate::text::lemma_first_index_bounds(s, '"' as u8);
}

/// The form that logs in: user name, password, the page to return to, and the
/// CSRF token, in that order.
pub fn login_form(username: &String, password: &String, csrf_token: String) -> (form: Vec<
    (&'static str, String),
>)
    ensures
        form@.len() == 4,
        form@[0].0@ == "username"@ && form@[0].1@ == username@,
        form@[1].0@ == "password"@ && form@[1].1@ == password@,
        form@[2].0@ == "dest"@ && form@[2].1@ == REDDIT_URL@,
        form@[3].0@ == "csrf_token"@ && form@[3].1@ == csrf_token@,
{
    let mut form: Vec<(&'static str, String)> = Vec::new();
    form.push(("username", username.clone()));
    form.push(("password", password.clone()));
    form.push(("dest", REDDIT_URL.to_owned()));
    form.push(("csrf_token", csrf_token));
    form
}

} // verus!
