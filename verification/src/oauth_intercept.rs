//! Interception of the Google OAuth token exchange inside the sandbox.
//!
//! Tools in the sandbox hold placeholder credentials and try to exchange
//! them at oauth2.googleapis.com. Such a request is answered locally with a
//! well-formed token response; the real token is injected later by the
//! proxy.

use vstd::prelude::*;
use vstd::string::*;
use vstd::utf8::encode_utf8;
use crate::text::{ascii_lower, ascii_upper, append_bytes, decimal_digits, decimal_value, is_digit, lemma_decimal_digits, lower_equals, push_decimal, str_equal, upper_equals};

verus! {

/// The token put in the answer when no real one is at hand.
pub open spec fn placeholder_token() -> Seq<char> {
    "fake-token-will-be-replaced-by-proxy"@
}

/// The JSON body of the answer, as UTF-8 bytes.
pub open spec fn oauth_body(token: Seq<char>) -> Seq<u8> {
    encode_utf8("{\"access_token\":\""@) + encode_utf8(token) + encode_utf8(
        "\",\"token_type\":\"Bearer\",\"expires_in\":3600}"@,
    )
}

/// The status line and headers that come before the length of the body.
pub open spec fn oauth_head() -> Seq<u8> {
    encode_utf8("HTTP/1.1 200 OK\r\nContent-Type: application/json\r\nContent-Length: "@)
}

/// The blank line that ends the headers.
pub open spec fn header_end() -> Seq<u8> {
    encode_utf8("\r\n\r\n"@)
}

/// The whole HTTP answer for `token`: status line, headers with the byte
/// length of the body, and the body.
pub open spec fn oauth_response(token: Seq<char>) -> Seq<u8> {
    oauth_head() + decimal_digits(oauth_body(token).len()) + header_end() + oauth_body(token)
}

/// A request for the OAuth token exchange: method POST and host
/// oauth2.googleapis.com, both regardless of ASCII case, and path exactly
/// /token.
pub open spec fn is_oauth_token_request(method: Seq<char>, host: Seq<char>, path: Seq<char>) -> bool {
    &&& ascii_upper(method) == "POST"@
    &&& ascii_lower(host) == "oauth2.googleapis.com"@
    &&& path == "/token"@
}

/// Whether a request is the OAuth token exchange to intercept.
pub fn should_intercept_oauth_request(method: &str, host: &str, path: &str) -> (r: bool)
    ensures
        r == is_oauth_token_request(method@, host@, path@),
{
    upper_equals(method, "POST") && lower_equals(host, "oauth2.googleapis.com") && str_equal(
        path,
        "/token",
    )
}

/// The answer to an intercepted token exchange, as raw HTTP bytes. It
/// carries `access_token` when given, the placeholder otherwise.
pub fn generate_fake_oauth_response(access_token: Option<&str>) -> (r: Vec<u8>)
    ensures
        r@ == oauth_response(
            match access_token {
                Some(t) => t@,
                None => placeholder_token(),
            },
        ),
{
    let token: &str = match access_token {
        Some(t) => t,
        None => "fake-token-will-be-replaced-by-proxy",
    };
    let mut body: Vec<u8> = Vec::new();
    append_bytes(&mut body, "{\"access_token\":\"".as_bytes());
    append_bytes(&mut body, token.as_bytes());
    append_bytes(&mut body, "\",\"token_type\":\"Bearer\",\"expires_in\":3600}".as_bytes());
    assert(body@ =~= oauth_body(token@));
    let mut out: Vec<u8> = Vec::new();
    append_bytes(
        &mut out,
        "HTTP/1.1 200 OK\r\nContent-Type: application/json\r\nContent-Length: ".as_bytes(),
    );
    push_decimal(&mut out, body.len());
    append_bytes(&mut out, "\r\n\r\n".as_bytes());
    append_bytes(&mut out, body.as_slice());
    assert(out@ =~= oauth_response(token@));
    out
}


/// The interception decision does not depend on the ASCII case of the
/// method or of the host.
pub proof fn lemma_intercept_ignores_ascii_case(
    method1: Seq<char>,
    method2: Seq<char>,
    host1: Seq<char>,
    host2: Seq<char>,
    path: Seq<char>,
)
    requires
        ascii_upper(method1) == ascii_upper(method2),
        ascii_lower(host1) == ascii_lower(host2),
    ensures
        is_oauth_token_request(method1, host1, path) == is_oauth_token_request(
            method2,
            host2,
            path,
        ),
{
}

/// The answer declares the length of its body truly: after the head comes
/// a decimal numeral, made of digits, of the body's byte length, then the
/// blank line, then exactly the body.
pub proof fn lemma_content_length_matches_body(token: Seq<char>)
    ensures
        ({
            let r = oauth_response(token);
            let body = oauth_body(token);
            let h = oauth_head().len() as int;
            let d = decimal_digits(body.len()).len() as int;
            &&& r.subrange(0, h) == oauth_head()
            &&& d > 0
            &&& forall|i: int| h <= i < h + d ==> is_digit(#[trigger] r[i])
            &&& decimal_value(r.subrange(h, h + d)) == body.len()
            &&& r.subrange(h + d, h + d + header_end().len()) == header_end()
            &&& r.subrange(r.len() - body.len(), r.len() as int) == body
        }),
{
    let r = oauth_response(token);
    let body = oauth_body(token);
    let h = oauth_head().len() as int;
    let digits = decimal_digits(body.len());
    let d = digits.len() as int;
    lemma_decimal_digits(body.len());
    assert(r.subrange(0, h) =~= oauth_head());
    assert(r.subrange(h, h + d) =~= digits);
    assert forall|i: int| h <= i < h + d implies is_digit(#[trigger] r[i]) by {
        assert(r[i] == digits[i - h]);
    }
    assert(r.subrange(h + d, h + d + header_end().len()) =~= header_end());
    assert(r.subrange(r.len() - body.len(), r.len() as int) =~= body);
}


/// The body carries the given token verbatim: it is the body for the empty
/// token with the token's UTF-8 bytes placed, whole and unchanged, between
/// the quotes that follow `"access_token":`.
pub proof fn lemma_body_carries_token_verbatim(token: Seq<char>)
    ensures
        ({
            let b = oauth_body(token);
            let e = oauth_body(Seq::<char>::empty());
            let p = encode_utf8("{\"access_token\":\""@).len() as int;
            let t = encode_utf8(token);
            &&& b.len() == e.len() + t.len()
            &&& b.subrange(0, p) == e.subrange(0, p)
            &&& b.subrange(p, p + t.len()) == t
            &&& b.subrange(p + t.len(), b.len() as int) == e.subrange(p, e.len() as int)
        }),
{
    let b = oauth_body(token);
    let e = oauth_body(Seq::<char>::empty());
    let p = encode_utf8("{\"access_token\":\""@).len() as int;
    let t = encode_utf8(token);
    assert(encode_utf8(Seq::<char>::empty()) =~= Seq::<u8>::empty());
    assert(b.subrange(0, p) =~= e.subrange(0, p));
    assert(b.subrange(p, p + t.len()) =~= t);
    assert(b.subrange(p + t.len(), b.len() as int) =~= e.subrange(p, e.len() as int));
}

/// The whole answer holds the body for the given token, so the token
/// appears in it verbatim, after the head, the length and the blank line.
pub proof fn lemma_response_ends_with_body(token: Seq<char>)
    ensures
        ({
            let r = oauth_response(token);
            let b = oauth_body(token);
            &&& r.len() >= b.len()
            &&& r.subrange(r.len() - b.len(), r.len() as int) == b
        }),
{
    let r = oauth_response(token);
    let b = oauth_body(token);
    assert(r.subrange(r.len() - b.len(), r.len() as int) =~= b);
}

} // verus!
