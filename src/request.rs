use crate::headers::{
    insert_entry, key_at, keys_unique, lemma_insert_lookup, lemma_insert_unique, lookup, Entries,
    HeaderMap,
};
use crate::text::{
    contains_http, find_char, first_pos, has_http, http_at, is_first, is_plain_line, join_lines,
    lemma_first_unique, lemma_lines_join, lemma_lines_single, lines, split_lines, split_words,
    str_eq, trim_nul_end, trim_nul_end_str, trim_start, trim_start_str, views, words,
};
use vstd::prelude::*;
use vstd::string::*;

verus! {

/// The target of a request, kept exactly as it was received.
#[derive(Debug, Clone, PartialEq, Eq)]
pub enum Resource {
    /// A path, with its query if any.
    Path(String),
}

impl Resource {
    pub open spec fn path_view(&self) -> Seq<char> {
        match self {
            Resource::Path(p) => p@,
        }
    }
}

/// The method of a request. A token that names no known method gives
/// `Uninitialized`.
#[derive(Debug, Clone, Copy, PartialEq, Eq, Structural)]
pub enum Method {
    Get,
    Post,
    Head,
    Put,
    Delete,
    Connect,
    Options,
    Trace,
    Patch,
    Uninitialized,
}

/// The HTTP version named on a request line. An unknown token gives
/// `Uninitialized`.
#[derive(Debug, Clone, Copy, PartialEq, Eq, Structural)]
pub enum Version {
    V1_1,
    V2_0,
    Uninitialized,
}

/// Why a request could not be read.
#[derive(Debug, Clone, Copy, PartialEq, Eq, Structural)]
pub enum ParseError {
    /// A request line with fewer than three words.
    MalformedRequestLine,
}

/// The method that a token names.
pub open spec fn method_of(t: Seq<char>) -> Method {
    if t == seq!['G', 'E', 'T'] {
        Method::Get
    } else if t == seq!['P', 'O', 'S', 'T'] {
        Method::Post
    } else if t == seq!['H', 'E', 'A', 'D'] {
        Method::Head
    } else if t == seq!['P', 'U', 'T'] {
        Method::Put
    } else if t == seq!['D', 'E', 'L', 'E', 'T', 'E'] {
        Method::Delete
    } else if t == seq!['C', 'O', 'N', 'N', 'E', 'C', 'T'] {
        Method::Connect
    } else if t == seq!['O', 'P', 'T', 'I', 'O', 'N', 'S'] {
        Method::Options
    } else if t == seq!['T', 'R', 'A', 'C', 'E'] {
        Method::Trace
    } else if t == seq!['P', 'A', 'T', 'C', 'H'] {
        Method::Patch
    } else {
        Method::Uninitialized
    }
}

/// The upper-case name of a method.
pub open spec fn method_name(m: Method) -> Seq<char> {
    match m {
        Method::Get => "GET"@,
        Method::Post => "POST"@,
        Method::Head => "HEAD"@,
        Method::Put => "PUT"@,
        Method::Delete => "DELETE"@,
        Method::Connect => "CONNECT"@,
        Method::Options => "OPTIONS"@,
        Method::Trace => "TRACE"@,
        Method::Patch => "PATCH"@,
        Method::Uninitialized => "UNINITIALIZED"@,
    }
}

/// The version that a token names.
pub open spec fn version_of(t: Seq<char>) -> Version {
    if t == seq!['H', 'T', 'T', 'P', '/', '1', '.', '1'] {
        Version::V1_1
    } else if t == seq!['H', 'T', 'T', 'P', '/', '2', '.', '0'] {
        Version::V2_0
    } else {
        Version::Uninitialized
    }
}

impl Method {
    /// The method's name in upper case, as written on a request line.
    pub fn name(&self) -> (r: String)
        ensures
            r@ == method_name(*self),
    {
        match self {
            Method::Get => String::from_str("GET"),
            Method::Post => String::from_str("POST"),
            Method::Head => String::from_str("HEAD"),
            Method::Put => String::from_str("PUT"),
            Method::Delete => String::from_str("DELETE"),
            Method::Connect => String::from_str("CONNECT"),
            Method::Options => String::from_str("OPTIONS"),
            Method::Trace => String::from_str("TRACE"),
            Method::Patch => String::from_str("PATCH"),
            Method::Uninitialized => String::from_str("UNINITIALIZED"),
        }
    }

    /// Classifies a method token; never fails.
    pub fn from_token(s: &str) -> (r: Method)
        ensures
            r == method_of(s@),
    {
        proof {
            reveal_strlit("GET");
            reveal_strlit("POST");
            reveal_strlit("HEAD");
            reveal_strlit("PUT");
            reveal_strlit("DELETE");
            reveal_strlit("CONNECT");
            reveal_strlit("OPTIONS");
            reveal_strlit("TRACE");
            reveal_strlit("PATCH");
            assert("GET"@ =~= seq!['G', 'E', 'T']);
            assert("POST"@ =~= seq!['P', 'O', 'S', 'T']);
            assert("HEAD"@ =~= seq!['H', 'E', 'A', 'D']);
            assert("PUT"@ =~= seq!['P', 'U', 'T']);
            assert("DELETE"@ =~= seq!['D', 'E', 'L', 'E', 'T', 'E']);
            assert("CONNECT"@ =~= seq!['C', 'O', 'N', 'N', 'E', 'C', 'T']);
            assert("OPTIONS"@ =~= seq!['O', 'P', 'T', 'I', 'O', 'N', 'S']);
            assert("TRACE"@ =~= seq!['T', 'R', 'A', 'C', 'E']);
            assert("PATCH"@ =~= seq!['P', 'A', 'T', 'C', 'H']);
        }
        if str_eq(s, "GET") {
            Method::Get
        } else if str_eq(s, "POST") {
            Method::Post
        } else if str_eq(s, "HEAD") {
            Method::Head
        } else if str_eq(s, "PUT") {
            Method::Put
        } else if str_eq(s, "DELETE") {
            Method::Delete
        } else if str_eq(s, "CONNECT") {
            Method::Connect
        } else if str_eq(s, "OPTIONS") {
            Method::Options
        } else if str_eq(s, "TRACE") {
            Method::Trace
        } else if str_eq(s, "PATCH") {
            Method::Patch
        } else {
            Method::Uninitialized
        }
    }
}

impl Version {
    /// Classifies a version token; never fails.
    pub fn from_token(s: &str) -> (r: Version)
        ensures
            r == version_of(s@),
    {
        proof {
            reveal_strlit("HTTP/1.1");
            reveal_strlit("HTTP/2.0");
            assert("HTTP/1.1"@ =~= seq!['H', 'T', 'T', 'P', '/', '1', '.', '1']);
            assert("HTTP/2.0"@ =~= seq!['H', 'T', 'T', 'P', '/', '2', '.', '0']);
        }
        if str_eq(s, "HTTP/1.1") {
            Version::V1_1
        } else if str_eq(s, "HTTP/2.0") {
            Version::V2_0
        } else {
            Version::Uninitialized
        }
    }
}


impl<'a> From<&'a str> for Method {
    fn from(s: &'a str) -> Method {
        Method::from_token(s)
    }
}

impl<'a> vstd::std_specs::convert::FromSpecImpl<&'a str> for Method {
    open spec fn obeys_from_spec() -> bool {
        true
    }

    open spec fn from_spec(s: &'a str) -> Method {
        method_of(s@)
    }
}

impl<'a> From<&'a str> for Version {
    fn from(s: &'a str) -> Version {
        Version::from_token(s)
    }
}

impl<'a> vstd::std_specs::convert::FromSpecImpl<&'a str> for Version {
    open spec fn obeys_from_spec() -> bool {
        true
    }

    open spec fn from_spec(s: &'a str) -> Version {
        version_of(s@)
    }
}

/// A header line has a colon.
pub open spec fn has_colon(l: Seq<char>) -> bool {
    exists|k: int| is_first(l, ':', k)
}

/// Key and value of a header line: the text before the first colon, and the
/// text after it without its leading white space. A line without a colon is
/// all key.
pub open spec fn split_header(l: Seq<char>) -> (Seq<char>, Seq<char>) {
    if has_colon(l) {
        let k = first_pos(l, ':');
        (l.subrange(0, k), trim_start(l.subrange(k + 1, l.len() as int)))
    } else {
        (l, seq![])
    }
}

/// What a request line gives: method, target and version, from its first
/// three words; `None` where it has fewer.
pub open spec fn request_line_of(l: Seq<char>) -> Option<(Method, Seq<char>, Version)> {
    let w = words(l);
    if w.len() < 3 {
        None
    } else {
        Some((method_of(w[0]), w[1], version_of(w[2])))
    }
}

/// What has been read of a request after some of its lines.
pub struct RequestModel {
    pub method: Method,
    pub version: Version,
    pub resource: Seq<char>,
    pub headers: Entries,
    pub body: Seq<char>,
    pub in_body: bool,
}

/// The state before the first line: no method, version 1.1, an empty path,
/// no headers and no body.
pub open spec fn initial_model() -> RequestModel {
    RequestModel {
        method: Method::Uninitialized,
        version: Version::V1_1,
        resource: seq![],
        headers: seq![],
        body: seq![],
        in_body: false,
    }
}

/// Reading one line. Before the blank line: a line holding `HTTP` is the
/// request line, one with a colon a header, an empty one starts the body, and
/// any other is passed over. After it, lines are appended to the body with no
/// separator.
pub open spec fn step(m: RequestModel, l: Seq<char>) -> Option<RequestModel> {
    if m.in_body {
        Some(RequestModel { body: m.body + l, ..m })
    } else if has_http(l) {
        match request_line_of(l) {
            None => None,
            Some((meth, res, ver)) => Some(
                RequestModel { method: meth, resource: res, version: ver, ..m },
            ),
        }
    } else if has_colon(l) {
        let (k, v) = split_header(l);
        Some(RequestModel { headers: insert_entry(m.headers, k, v), ..m })
    } else if l.len() == 0 {
        Some(RequestModel { in_body: true, ..m })
    } else {
        Some(m)
    }
}

/// Reading a sequence of lines in order; `None` once a request line is
/// malformed.
pub open spec fn run_lines(ls: Seq<Seq<char>>) -> Option<RequestModel>
    decreases ls.len(),
{
    if ls.len() == 0 {
        Some(initial_model())
    } else {
        match run_lines(ls.drop_last()) {
            None => None,
            Some(m) => step(m, ls.last()),
        }
    }
}

/// What a whole message text reads to.
pub open spec fn parse_model(raw: Seq<char>) -> Option<RequestModel> {
    run_lines(lines(raw))
}

/// A parsed request.
#[derive(Debug, Clone, PartialEq, Eq)]
pub struct HttpRequest {
    pub method: Method,
    pub version: Version,
    pub resource: Resource,
    pub headers: HeaderMap,
    pub msg_body: String,
}

impl HttpRequest {
    /// This request is what the lines read to: the fields as the model has
    /// them, and the body without its trailing NUL characters.
    pub open spec fn models(&self, m: RequestModel) -> bool {
        &&& self.method == m.method
        &&& self.version == m.version
        &&& self.resource.path_view() == m.resource
        &&& self.headers@ == m.headers
        &&& self.headers.wf()
        &&& self.msg_body@ == trim_nul_end(m.body)
    }

    /// Reads a request from its full message text: a request line, header
    /// lines, a blank line and a body, with lines ended by CRLF or LF.
    pub fn parse(raw: &str) -> (r: Result<HttpRequest, ParseError>)
        ensures
            r is Err <==> parse_model(raw@) is None,
            r matches Err(e) ==> e == ParseError::MalformedRequestLine,
            r matches Ok(req) ==> req.models(parse_model(raw@)->Some_0),
    {
        let ls = split_lines(raw);
        let n = ls.len();
        let mut method = Method::Uninitialized;
        let mut version = Version::V1_1;
        let mut resource = String::new();
        let mut headers = HeaderMap::new();
        let mut body = String::new();
        let mut in_body = false;
        let mut i: usize = 0;
        assert(views(ls@).take(0) =~= Seq::<Seq<char>>::empty());
        while i < n
            invariant
                n == ls@.len(),
                i <= n,
                views(ls@) == lines(raw@),
                headers.wf(),
                run_lines(views(ls@).take(i as int)) == Some(
                    RequestModel {
                        method,
                        version,
                        resource: resource@,
                        headers: headers@,
                        body: body@,
                        in_body,
                    },
                ),
            decreases n - i,
        {
            let line: &str = ls[i].as_str();
            let ghost l = views(ls@)[i as int];
            assert(line@ == l);
            assert(views(ls@).take(i + 1).drop_last() =~= views(ls@).take(i as int));
            assert(views(ls@).take(i + 1).last() == l);
            if in_body {
                body.append(line);
            } else if contains_http(line) {
                match process_req_line(line) {
                    Err(e) => {
                        proof {
                            lemma_run_lines_stays_none(views(ls@), i + 1);
                            assert(views(ls@).take(n as int) =~= views(ls@));
                        }
                        return Err(e);
                    },
                    Ok((meth, res, ver)) => {
                        method = meth;
                        resource = res;
                        version = ver;
                    },
                }
            } else if let Some(_) = find_char(line, ':') {
                let (k, v) = process_header_line(line);
                headers.insert(k, v);
            } else if line.is_empty() {
                in_body = true;
            }
            i += 1;
        }
        assert(views(ls@).take(n as int) =~= views(ls@));
        let msg_body = trim_nul_end_str(body.as_str());
        Ok(HttpRequest { method, version, resource: Resource::Path(resource), headers, msg_body })
    }
}

/// Once a line has failed to read, the lines after it change nothing.
pub proof fn lemma_run_lines_stays_none(ls: Seq<Seq<char>>, i: int)
    requires
        0 <= i <= ls.len(),
        run_lines(ls.take(i)) is None,
    ensures
        run_lines(ls) is None,
    decreases ls.len() - i,
{
    if i < ls.len() {
        assert(ls.take(i + 1).drop_last() =~= ls.take(i));
        lemma_run_lines_stays_none(ls, i + 1);
    } else {
        assert(ls.take(i) =~= ls);
    }
}

/// A line read as a header: it has a colon and does not hold `HTTP`.
pub open spec fn is_header_line(l: Seq<char>) -> bool {
    !has_http(l) && has_colon(l)
}

/// Reading a request line with at least three words sets method, target and
/// version to what its first three words classify to, and leaves headers and
/// body as they were.
pub proof fn lemma_request_line_read(ls: Seq<Seq<char>>, l: Seq<char>)
    requires
        run_lines(ls) is Some,
        !run_lines(ls)->Some_0.in_body,
        has_http(l),
        words(l).len() >= 3,
    ensures
        run_lines(ls.push(l)) is Some,
        ({
            let m = run_lines(ls)->Some_0;
            let m2 = run_lines(ls.push(l))->Some_0;
            &&& m2.method == method_of(words(l)[0])
            &&& m2.resource == words(l)[1]
            &&& m2.version == version_of(words(l)[2])
            &&& m2.headers == m.headers
            &&& m2.body == m.body
            &&& !m2.in_body
        }),
{
    assert(ls.push(l).drop_last() =~= ls);
}

/// A text that is one request line with at least three words parses to the
/// method, target and version that those words classify to, with no headers
/// and an empty body.
pub proof fn lemma_parse_request_line(raw: Seq<char>)
    requires
        forall|i: int| 0 <= i < raw.len() ==> raw[i] != '\n',
        has_http(raw),
        words(raw).len() >= 3,
    ensures
        parse_model(raw) is Some,
        parse_model(raw)->Some_0.method == method_of(words(raw)[0]),
        parse_model(raw)->Some_0.resource == words(raw)[1],
        parse_model(raw)->Some_0.version == version_of(words(raw)[2]),
        parse_model(raw)->Some_0.headers.len() == 0,
        parse_model(raw)->Some_0.body.len() == 0,
{
    let i = choose|i: int| http_at(raw, i);
    assert(http_at(raw, i));
    lemma_lines_single(raw);
    let ls = seq![raw];
    assert(ls.drop_last() =~= Seq::<Seq<char>>::empty());
    assert(run_lines(Seq::<Seq<char>>::empty()) == Some(initial_model()));
    assert(run_lines(ls) == step(initial_model(), raw));
}

/// A request line with at least three words followed by header lines, all
/// written out with a line feed after each.
pub open spec fn request_head_text(req: Seq<char>, hs: Seq<Seq<char>>) -> bool {
    &&& is_plain_line(req)
    &&& has_http(req)
    &&& words(req).len() >= 3
    &&& forall|i: int| 0 <= i < hs.len() ==> is_plain_line(#[trigger] hs[i]) && is_header_line(
        hs[i],
    )
}

proof fn lemma_parse_head_lines(req: Seq<char>, hs: Seq<Seq<char>>)
    requires
        request_head_text(req, hs),
    ensures
        parse_model(join_lines(seq![req] + hs)) == run_lines(seq![req] + hs),
        run_lines(seq![req]) is Some,
        !run_lines(seq![req])->Some_0.in_body,
        run_lines(seq![req])->Some_0.headers.len() == 0,
{
    let ls = seq![req] + hs;
    assert forall|i: int| 0 <= i < ls.len() implies is_plain_line(#[trigger] ls[i]) by {
        if i > 0 {
            assert(ls[i] == hs[i - 1]);
        }
    }
    lemma_lines_join(ls);
    let e = Seq::<Seq<char>>::empty();
    assert(run_lines(e) == Some(initial_model()));
    assert(e.push(req) =~= seq![req]);
    lemma_request_line_read(e, req);
}

/// A request whose header lines have distinct keys parses to exactly those
/// keys and values, in order, each value without its leading white space.
pub proof fn lemma_parse_unique_headers(req: Seq<char>, hs: Seq<Seq<char>>)
    requires
        request_head_text(req, hs),
        forall|i: int, j: int|
            0 <= i < j < hs.len() ==> split_header(hs[i]).0 != split_header(hs[j]).0,
    ensures
        parse_model(join_lines(seq![req] + hs)) is Some,
        parse_model(join_lines(seq![req] + hs))->Some_0.headers == hs.map_values(
            |l: Seq<char>| split_header(l),
        ),
        parse_model(join_lines(seq![req] + hs))->Some_0.headers.len() == hs.len(),
{
    lemma_parse_head_lines(req, hs);
    lemma_unique_headers_kept(seq![req], hs);
}

/// In a parsed request, a key given on several header lines has the value of
/// the last of them.
pub proof fn lemma_parse_last_header_wins(req: Seq<char>, hs: Seq<Seq<char>>, i: int)
    requires
        request_head_text(req, hs),
        0 <= i < hs.len(),
        forall|j: int| i < j < hs.len() ==> split_header(#[trigger] hs[j]).0 != split_header(hs[i]).0,
    ensures
        parse_model(join_lines(seq![req] + hs)) is Some,
        lookup(parse_model(join_lines(seq![req] + hs))->Some_0.headers, split_header(hs[i]).0)
            == Some(split_header(hs[i]).1),
{
    lemma_parse_head_lines(req, hs);
    lemma_last_header_wins(seq![req], hs, i);
}

/// Every state that the lines reach keeps header keys distinct.
pub proof fn lemma_run_lines_keys_unique(ls: Seq<Seq<char>>)
    requires
        run_lines(ls) is Some,
    ensures
        keys_unique(run_lines(ls)->Some_0.headers),
    decreases ls.len(),
{
    if ls.len() > 0 {
        lemma_run_lines_keys_unique(ls.drop_last());
        let m = run_lines(ls.drop_last())->Some_0;
        let (k, v) = split_header(ls.last());
        lemma_insert_unique(m.headers, k, v);
    }
}

/// Header lines with distinct keys, read after a request line with no headers
/// yet, give exactly their key and value pairs, in order, each value without
/// its leading white space.
pub proof fn lemma_unique_headers_kept(ls: Seq<Seq<char>>, hs: Seq<Seq<char>>)
    requires
        run_lines(ls) is Some,
        !run_lines(ls)->Some_0.in_body,
        run_lines(ls)->Some_0.headers.len() == 0,
        forall|i: int| 0 <= i < hs.len() ==> is_header_line(#[trigger] hs[i]),
        forall|i: int, j: int|
            0 <= i < j < hs.len() ==> split_header(hs[i]).0 != split_header(hs[j]).0,
    ensures
        run_lines(ls + hs) is Some,
        !run_lines(ls + hs)->Some_0.in_body,
        run_lines(ls + hs)->Some_0.headers == hs.map_values(|l: Seq<char>| split_header(l)),
    decreases hs.len(),
{
    if hs.len() == 0 {
        assert(ls + hs =~= ls);
        assert(hs.map_values(|l: Seq<char>| split_header(l)) =~= Seq::<
            (Seq<char>, Seq<char>),
        >::empty());
    } else {
        let hp = hs.drop_last();
        let l = hs.last();
        assert(is_header_line(hs[hs.len() - 1]));
        lemma_unique_headers_kept(ls, hp);
        assert((ls + hs).drop_last() =~= ls + hp);
        let prev = hp.map_values(|x: Seq<char>| split_header(x));
        let k = split_header(l).0;
        assert forall|i: int| !key_at(prev, k, i) by {
            if key_at(prev, k, i) {
                assert(split_header(hs[i]).0 != split_header(hs[hs.len() - 1]).0);
            }
        }
        assert(hs.map_values(|x: Seq<char>| split_header(x)) =~= prev.push(split_header(l)));
    }
}

/// Where a key occurs on several header lines, the value of the last of them
/// is the one kept.
pub proof fn lemma_last_header_wins(ls: Seq<Seq<char>>, hs: Seq<Seq<char>>, i: int)
    requires
        run_lines(ls) is Some,
        !run_lines(ls)->Some_0.in_body,
        forall|j: int| 0 <= j < hs.len() ==> is_header_line(#[trigger] hs[j]),
        0 <= i < hs.len(),
        forall|j: int| i < j < hs.len() ==> split_header(#[trigger] hs[j]).0 != split_header(hs[i]).0,
    ensures
        run_lines(ls + hs) is Some,
        !run_lines(ls + hs)->Some_0.in_body,
        lookup(run_lines(ls + hs)->Some_0.headers, split_header(hs[i]).0) == Some(
            split_header(hs[i]).1,
        ),
    decreases hs.len(),
{
    let hp = hs.drop_last();
    let l = hs.last();
    assert(is_header_line(hs[hs.len() - 1]));
    assert((ls + hs).drop_last() =~= ls + hp);
    assert((ls + hs).last() == l);
    lemma_header_lines_stay_out_of_body(ls, hp);
    lemma_run_lines_keys_unique(ls + hp);
    let m = run_lines(ls + hp)->Some_0;
    lemma_insert_lookup(m.headers, split_header(l).0, split_header(l).1, split_header(hs[i]).0);
    if i < hs.len() - 1 {
        assert(hp[i] == hs[i]);
        lemma_last_header_wins(ls, hp, i);
    }
}

/// Header lines read before the blank line leave the reading before it.
pub proof fn lemma_header_lines_stay_out_of_body(ls: Seq<Seq<char>>, hs: Seq<Seq<char>>)
    requires
        run_lines(ls) is Some,
        !run_lines(ls)->Some_0.in_body,
        forall|j: int| 0 <= j < hs.len() ==> is_header_line(#[trigger] hs[j]),
    ensures
        run_lines(ls + hs) is Some,
        !run_lines(ls + hs)->Some_0.in_body,
    decreases hs.len(),
{
    if hs.len() == 0 {
        assert(ls + hs =~= ls);
    } else {
        let hp = hs.drop_last();
        assert(is_header_line(hs[hs.len() - 1]));
        assert((ls + hs).drop_last() =~= ls + hp);
        lemma_header_lines_stay_out_of_body(ls, hp);
    }
}

/// Reads a request line: the method, the target and the version from its
/// first three words.
pub fn process_req_line(s: &str) -> (r: Result<(Method, String, Version), ParseError>)
    ensures
        r is Err <==> request_line_of(s@) is None,
        r matches Err(e) ==> e == ParseError::MalformedRequestLine,
        r matches Ok((m, p, v)) ==> request_line_of(s@) == Some((m, p@, v)),
{
    let w = split_words(s);
    if w.len() < 3 {
        return Err(ParseError::MalformedRequestLine);
    }
    assert(views(w@)[0] == w@[0]@);
    assert(views(w@)[1] == w@[1]@);
    assert(views(w@)[2] == w@[2]@);
    let m = Method::from_token(w[0].as_str());
    let v = Version::from_token(w[2].as_str());
    Ok((m, w[1].clone(), v))
}

/// Splits a header line at its first colon into key and value, the value
/// without leading white space.
pub fn process_header_line(s: &str) -> (r: (String, String))
    ensures
        (r.0@, r.1@) == split_header(s@),
{
    match find_char(s, ':') {
        Some(k) => {
            proof {
                lemma_first_unique(s@, ':', k as int);
            }
            let n = s.unicode_len();
            let key = String::from_str(s.substring_char(0, k));
            let value = trim_start_str(s.substring_char(k + 1, n));
            (key, value)
        },
        None => {
            assert(!has_colon(s@));
            (String::from_str(s), String::new())
        },
    }
}

} // verus!
