use crate::headers::{header_block, Entries, HeaderMap};
use crate::text::str_eq;
use vstd::prelude::*;
use vstd::string::*;
use vstd::utf8::encode_utf8;

verus! {

/// The character of a decimal digit.
pub open spec fn digit_char(d: nat) -> char {
    if d == 0 {
        '0'
    } else if d == 1 {
        '1'
    } else if d == 2 {
        '2'
    } else if d == 3 {
        '3'
    } else if d == 4 {
        '4'
    } else if d == 5 {
        '5'
    } else if d == 6 {
        '6'
    } else if d == 7 {
        '7'
    } else if d == 8 {
        '8'
    } else {
        '9'
    }
}

/// The value of a decimal digit character.
pub open spec fn digit_value(c: char) -> nat {
    if c == '1' {
        1
    } else if c == '2' {
        2
    } else if c == '3' {
        3
    } else if c == '4' {
        4
    } else if c == '5' {
        5
    } else if c == '6' {
        6
    } else if c == '7' {
        7
    } else if c == '8' {
        8
    } else if c == '9' {
        9
    } else {
        0
    }
}

/// `n` written in decimal, without leading zeros.
pub open spec fn decimal(n: nat) -> Seq<char>
    decreases n,
{
    if n < 10 {
        seq![digit_char(n)]
    } else {
        decimal(n / 10).push(digit_char(n % 10))
    }
}

/// The number that a string of decimal digits denotes.
pub open spec fn decimal_value(s: Seq<char>) -> nat
    decreases s.len(),
{
    if s.len() == 0 {
        0
    } else {
        decimal_value(s.drop_last()) * 10 + digit_value(s.last())
    }
}

/// Reading a number's decimal form back gives the number.
pub proof fn lemma_decimal_round_trip(n: nat)
    ensures
        decimal_value(decimal(n)) == n,
    decreases n,
{
    if n < 10 {
        assert(decimal(n).drop_last() =~= Seq::<char>::empty());
        assert(decimal_value(Seq::<char>::empty()) == 0);
        assert(digit_value(digit_char(n)) == n);
    } else {
        lemma_decimal_round_trip(n / 10);
        assert(decimal(n).drop_last() =~= decimal(n / 10));
        assert(digit_value(digit_char(n % 10)) == n % 10);
        assert((n / 10) * 10 + n % 10 == n);
    }
}

/// Writes a number in decimal.
pub fn decimal_string(n: usize) -> (r: String)
    ensures
        r@ == decimal(n as nat),
    decreases n,
{
    let digits = "0123456789";
    let d = n % 10;
    proof {
        reveal_strlit("0123456789");
    }
    let last = digits.substring_char(d, d + 1);
    assert(last@ =~= seq![digit_char(d as nat)]);
    if n < 10 {
        String::from_str(last)
    } else {
        let mut s = decimal_string(n / 10);
        s.append(last);
        s
    }
}

/// An HTTP response: status line fields, headers and body.
#[derive(Debug, Clone, PartialEq, Eq)]
pub struct HttpResponse {
    pub version: String,
    pub status_code: String,
    pub status_text: String,
    pub headers: Option<HeaderMap>,
    pub body: Option<String>,
}

/// The one header that a response has when none are given:
/// `Content-Type: text/plain`.
pub open spec fn default_headers() -> Entries {
    seq![("Content-Type"@, "text/plain"@)]
}

/// The headers that a response is built with: those given, or the default.
pub open spec fn chosen_headers(r: Option<HeaderMap>, given: Option<HeaderMap>) -> bool {
    match given {
        Some(h) => r == Some(h),
        None => r matches Some(d) && d@ == default_headers() && d.wf(),
    }
}

/// The reason phrase that the older constructor gives a code: one of four,
/// else empty.
pub open spec fn legacy_status_text(code: Seq<char>) -> Seq<char> {
    if code == "200"@ {
        "OK"@
    } else if code == "400"@ {
        "Bad Request"@
    } else if code == "404"@ {
        "Not Found"@
    } else if code == "500"@ {
        "Internal Server Error"@
    } else {
        Seq::empty()
    }
}

impl Default for HttpResponse {
    /// Version 1.1, status 200 OK, no headers and no body.
    fn default() -> (r: HttpResponse)
        ensures
            r.version@ == "HTTP/1.1"@,
            r.status_code@ == "200"@,
            r.status_text@ == "OK"@,
            r.headers is None,
            r.body is None,
    {
        HttpResponse {
            version: String::from_str("HTTP/1.1"),
            status_code: String::from_str("200"),
            status_text: String::from_str("OK"),
            headers: None,
            body: None,
        }
    }
}

impl HttpResponse {
    pub open spec fn body_view(&self) -> Seq<char> {
        match self.body {
            Some(b) => b@,
            None => Seq::empty(),
        }
    }

    pub open spec fn headers_view(&self) -> Entries {
        match self.headers {
            Some(h) => h@,
            None => Seq::empty(),
        }
    }

    /// The length of the body in UTF-8 bytes.
    pub open spec fn body_byte_len(&self) -> nat {
        encode_utf8(self.body_view()).len()
    }

    /// Status line and header lines, up to the `Content-Length` field.
    pub open spec fn head_view(&self) -> Seq<char> {
        self.version@ + seq![' '] + self.status_code@ + seq![' '] + self.status_text@ + seq![
            '\r',
            '\n',
        ] + header_block(self.headers_view())
    }

    /// The response on the wire: the status line, the header lines,
    /// `Content-Length` with the body's length in bytes, a blank line and the
    /// body.
    pub open spec fn wire_view(&self) -> Seq<char> {
        self.head_view() + "Content-Length: "@ + decimal(self.body_byte_len()) + seq![
            '\r',
            '\n',
            '\r',
            '\n',
        ] + self.body_view()
    }

    /// Version 1.1, the given status, the given or default headers and the
    /// given body.
    pub open spec fn built_from(
        &self,
        headers: Option<HeaderMap>,
        body: Option<String>,
        code: Seq<char>,
        text: Seq<char>,
    ) -> bool {
        &&& self.version@ == "HTTP/1.1"@
        &&& self.status_code@ == code
        &&& self.status_text@ == text
        &&& chosen_headers(self.headers, headers)
        &&& self.body == body
    }

    /// A response with a code and, for the codes 200, 400, 404 and 500, its
    /// reason phrase; other codes get an empty phrase. Prefer the constructor
    /// named after the status.
    pub fn new(status_code: &str, headers: Option<HeaderMap>, body: Option<String>) -> (r:
        HttpResponse)
        ensures
            r.built_from(headers, body, status_code@, legacy_status_text(status_code@)),
    {
        let text = if str_eq(status_code, "200") {
            "OK"
        } else if str_eq(status_code, "400") {
            "Bad Request"
        } else if str_eq(status_code, "404") {
            "Not Found"
        } else if str_eq(status_code, "500") {
            "Internal Server Error"
        } else {
            ""
        };
        proof {
            reveal_strlit("");
        }
        assert(text@ == legacy_status_text(status_code@));
        Self::new_from_status(headers, body, status_code, text)
    }

    /// A response with the given status; with no headers given it has
    /// `Content-Type: text/plain`.
    pub fn new_from_status(
        headers: Option<HeaderMap>,
        body: Option<String>,
        status_code: &str,
        status_text: &str,
    ) -> (r: HttpResponse)
        ensures
            r.built_from(headers, body, status_code@, status_text@),
    {
        let hs = match headers {
            Some(h) => Some(h),
            None => {
                let mut d = HeaderMap::new();
                d.insert(String::from_str("Content-Type"), String::from_str("text/plain"));
                proof {
                    lemma_default_headers(d@);
                }
                Some(d)
            },
        };
        HttpResponse {
            version: String::from_str("HTTP/1.1"),
            status_code: String::from_str(status_code),
            status_text: String::from_str(status_text),
            headers: hs,
            body,
        }
    }

    /// The body, empty where there is none.
    pub fn body(&self) -> (r: &str)
        ensures
            r@ == self.body_view(),
    {
        match &self.body {
            Some(b) => b.as_str(),
            None => {
                proof {
                    reveal_strlit("");
                }
                ""
            },
        }
    }

    pub fn version(&self) -> (r: &str)
        ensures
            r@ == self.version@,
    {
        self.version.as_str()
    }

    pub fn status_code(&self) -> (r: &str)
        ensures
            r@ == self.status_code@,
    {
        self.status_code.as_str()
    }

    pub fn status_text(&self) -> (r: &str)
        ensures
            r@ == self.status_text@,
    {
        self.status_text.as_str()
    }

    /// The header lines, each `key:value` and CRLF; none where the response
    /// has no headers.
    pub fn headers(&self) -> (r: String)
        ensures
            r@ == header_block(self.headers_view()),
    {
        match &self.headers {
            Some(h) => h.to_lines(),
            None => {
                assert(header_block(self.headers_view()) =~= Seq::<char>::empty());
                String::new()
            },
        }
    }

    /// The response as text to send.
    pub fn to_wire(&self) -> (r: String)
        ensures
            r@ == self.wire_view(),
    {
        let mut out = String::from_str(self.version.as_str());
        out.append(" ");
        out.append(self.status_code.as_str());
        out.append(" ");
        out.append(self.status_text.as_str());
        out.append("\r\n");
        let hs = self.headers();
        out.append(hs.as_str());
        let b = self.body();
        let bytes = b.as_bytes();
        let len = bytes.len();
        assert(len == self.body_byte_len());
        let digits = decimal_string(len);
        out.append("Content-Length: ");
        out.append(digits.as_str());
        out.append("\r\n\r\n");
        out.append(b);
        proof {
            reveal_strlit(" ");
            reveal_strlit("\r\n");
            reveal_strlit("\r\n\r\n");
            assert(out@ =~= self.wire_view());
        }
        out
    }
}

impl HttpResponse {
    /// 100 Continue.
    pub fn _continue(headers: Option<HeaderMap>, body: Option<String>) -> (r: HttpResponse)
        ensures
            r.built_from(headers, body, "100"@, "Continue"@),
    {
        Self::new_from_status(headers, body, "100", "Continue")
    }

    /// 101 Switching Protocol.
    pub fn switching_protocol(headers: Option<HeaderMap>, body: Option<String>) -> (r: HttpResponse)
        ensures
            r.built_from(headers, body, "101"@, "Switching Protocol"@),
    {
        Self::new_from_status(headers, body, "101", "Switching Protocol")
    }

    /// 103 Early Hints.
    pub fn early_hints(headers: Option<HeaderMap>, body: Option<String>) -> (r: HttpResponse)
        ensures
            r.built_from(headers, body, "103"@, "Early Hints"@),
    {
        Self::new_from_status(headers, body, "103", "Early Hints")
    }

    /// 200 OK.
    pub fn ok(headers: Option<HeaderMap>, body: Option<String>) -> (r: HttpResponse)
        ensures
            r.built_from(headers, body, "200"@, "OK"@),
    {
        Self::new_from_status(headers, body, "200", "OK")
    }

    /// 201 Created.
    pub fn created(headers: Option<HeaderMap>, body: Option<String>) -> (r: HttpResponse)
        ensures
            r.built_from(headers, body, "201"@, "Created"@),
    {
        Self::new_from_status(headers, body, "201", "Created")
    }

    /// 202 Accepted.
    pub fn accepted(headers: Option<HeaderMap>, body: Option<String>) -> (r: HttpResponse)
        ensures
            r.built_from(headers, body, "202"@, "Accepted"@),
    {
        Self::new_from_status(headers, body, "202", "Accepted")
    }

    /// 203 Non-Authoritative Information.
    pub fn non_authoritative_information(headers: Option<HeaderMap>, body: Option<String>) -> (r: HttpResponse)
        ensures
            r.built_from(headers, body, "203"@, "Non-Authoritative Information"@),
    {
        Self::new_from_status(headers, body, "203", "Non-Authoritative Information")
    }

    /// 204 No Content.
    pub fn no_content(headers: Option<HeaderMap>, body: Option<String>) -> (r: HttpResponse)
        ensures
            r.built_from(headers, body, "204"@, "No Content"@),
    {
        Self::new_from_status(headers, body, "204", "No Content")
    }

    /// 205 Reset Content.
    pub fn reset_content(headers: Option<HeaderMap>, body: Option<String>) -> (r: HttpResponse)
        ensures
            r.built_from(headers, body, "205"@, "Reset Content"@),
    {
        Self::new_from_status(headers, body, "205", "Reset Content")
    }

    /// 206 Partial Content.
    pub fn partial_content(headers: Option<HeaderMap>, body: Option<String>) -> (r: HttpResponse)
        ensures
            r.built_from(headers, body, "206"@, "Partial Content"@),
    {
        Self::new_from_status(headers, body, "206", "Partial Content")
    }

    /// 302 Found.
    pub fn found(headers: Option<HeaderMap>, body: Option<String>) -> (r: HttpResponse)
        ensures
            r.built_from(headers, body, "302"@, "Found"@),
    {
        Self::new_from_status(headers, body, "302", "Found")
    }

    /// 303 See Other.
    pub fn see_other(headers: Option<HeaderMap>, body: Option<String>) -> (r: HttpResponse)
        ensures
            r.built_from(headers, body, "303"@, "See Other"@),
    {
        Self::new_from_status(headers, body, "303", "See Other")
    }

    /// 304 Not Modified.
    pub fn not_modified(headers: Option<HeaderMap>, body: Option<String>) -> (r: HttpResponse)
        ensures
            r.built_from(headers, body, "304"@, "Not Modified"@),
    {
        Self::new_from_status(headers, body, "304", "Not Modified")
    }

    /// 307 Temporary Redirect.
    pub fn temporary_redirect(headers: Option<HeaderMap>, body: Option<String>) -> (r: HttpResponse)
        ensures
            r.built_from(headers, body, "307"@, "Temporary Redirect"@),
    {
        Self::new_from_status(headers, body, "307", "Temporary Redirect")
    }

    /// 308 Permanent Redirect.
    pub fn permanent_redirect(headers: Option<HeaderMap>, body: Option<String>) -> (r: HttpResponse)
        ensures
            r.built_from(headers, body, "308"@, "Permanent Redirect"@),
    {
        Self::new_from_status(headers, body, "308", "Permanent Redirect")
    }

    /// 400 Bad Request.
    pub fn bad_request(headers: Option<HeaderMap>, body: Option<String>) -> (r: HttpResponse)
        ensures
            r.built_from(headers, body, "400"@, "Bad Request"@),
    {
        Self::new_from_status(headers, body, "400", "Bad Request")
    }

    /// 401 Unauthorized.
    pub fn unauthorized(headers: Option<HeaderMap>, body: Option<String>) -> (r: HttpResponse)
        ensures
            r.built_from(headers, body, "401"@, "Unauthorized"@),
    {
        Self::new_from_status(headers, body, "401", "Unauthorized")
    }

    /// 403 Forbidden.
    pub fn forbidden(headers: Option<HeaderMap>, body: Option<String>) -> (r: HttpResponse)
        ensures
            r.built_from(headers, body, "403"@, "Forbidden"@),
    {
        Self::new_from_status(headers, body, "403", "Forbidden")
    }

    /// 404 Not Found.
    pub fn not_found(headers: Option<HeaderMap>, body: Option<String>) -> (r: HttpResponse)
        ensures
            r.built_from(headers, body, "404"@, "Not Found"@),
    {
        Self::new_from_status(headers, body, "404", "Not Found")
    }

    /// 405 Method Not Allowed.
    pub fn method_not_allowed(headers: Option<HeaderMap>, body: Option<String>) -> (r: HttpResponse)
        ensures
            r.built_from(headers, body, "405"@, "Method Not Allowed"@),
    {
        Self::new_from_status(headers, body, "405", "Method Not Allowed")
    }

    /// 408 Request Timeout.
    pub fn request_timeout(headers: Option<HeaderMap>, body: Option<String>) -> (r: HttpResponse)
        ensures
            r.built_from(headers, body, "408"@, "Request Timeout"@),
    {
        Self::new_from_status(headers, body, "408", "Request Timeout")
    }

    /// 410 Gone.
    pub fn gone(headers: Option<HeaderMap>, body: Option<String>) -> (r: HttpResponse)
        ensures
            r.built_from(headers, body, "410"@, "Gone"@),
    {
        Self::new_from_status(headers, body, "410", "Gone")
    }

    /// 418 I'm a teapot.
    pub fn im_a_teapot(headers: Option<HeaderMap>, body: Option<String>) -> (r: HttpResponse)
        ensures
            r.built_from(headers, body, "418"@, "I'm a teapot"@),
    {
        Self::new_from_status(headers, body, "418", "I'm a teapot")
    }

    /// 500 Internal Server Error.
    pub fn internal_server_error(headers: Option<HeaderMap>, body: Option<String>) -> (r: HttpResponse)
        ensures
            r.built_from(headers, body, "500"@, "Internal Server Error"@),
    {
        Self::new_from_status(headers, body, "500", "Internal Server Error")
    }
}

/// Serializing a response and reading the number back out of its
/// `Content-Length` field gives the body's length in UTF-8 bytes, for every
/// body, the empty one included; the body follows the blank line unchanged.
pub proof fn lemma_content_length_round_trip(r: HttpResponse)
    ensures
        ({
            let w = r.wire_view();
            let h = r.head_view().len() as int;
            let a = h + 16;
            let d = decimal(r.body_byte_len());
            &&& w.subrange(h, a) == "Content-Length: "@
            &&& w.subrange(a, a + d.len()) == d
            &&& decimal_value(w.subrange(a, a + d.len())) == r.body_byte_len()
            &&& w.subrange(a + d.len() + 4, w.len() as int) == r.body_view()
        }),
{
    reveal_strlit("Content-Length: ");
    let w = r.wire_view();
    let h = r.head_view().len() as int;
    let a = h + 16;
    let d = decimal(r.body_byte_len());
    assert(w.subrange(h, a) =~= "Content-Length: "@);
    assert(w.subrange(a, a + d.len()) =~= d);
    assert(w.subrange(a + d.len() + 4, w.len() as int) =~= r.body_view());
    lemma_decimal_round_trip(r.body_byte_len());
}

proof fn lemma_default_headers(e: Entries)
    requires
        e == crate::headers::insert_entry(Seq::empty(), "Content-Type"@, "text/plain"@),
    ensures
        e == default_headers(),
{
    assert(!crate::headers::has_key(Seq::empty(), "Content-Type"@));
    assert(e =~= default_headers());
}

} // verus!
