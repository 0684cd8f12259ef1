//! Request and response values, and the header rules read from them.
use vstd::prelude::*;
use vstd::string::StringExecFns;
use vstd::utf8::encode_utf8;
use crate::text::{append_bytes, append_text, decimal, decimal_string, eq_ignore_ascii_case, eq_ignore_case};

verus! {

/// The protocol version a request was sent with.
#[derive(Clone, Copy, Debug, PartialEq, Eq, Structural)]
pub enum HttpVersion {
    Http10,
    Http11,
    Http2,
    Http3,
    Unknown,
}

impl HttpVersion {
    pub open spec fn spec_is_http1_1_or_higher(self) -> bool {
        self == HttpVersion::Http11 || self == HttpVersion::Http2 || self == HttpVersion::Http3
    }

    /// HTTP/1.1 and every later version.
    pub fn is_http1_1_or_higher(&self) -> (r: bool)
        ensures
            r == self.spec_is_http1_1_or_higher(),
    {
        match self {
            HttpVersion::Http11 | HttpVersion::Http2 | HttpVersion::Http3 => true,
            _ => false,
        }
    }
}

/// The protocol switch a request asks for, if any.
#[derive(Clone, Copy, Debug, PartialEq, Eq, Structural)]
pub enum UpgradeType {
    Http,
    WebSocket,
    Other,
}

impl UpgradeType {
    pub fn is_websocket(&self) -> (r: bool)
        ensures
            r == (*self == UpgradeType::WebSocket),
    {
        match self {
            UpgradeType::WebSocket => true,
            _ => false,
        }
    }
}

/// Ordered header list; keys compare without regard to ASCII case.
pub type Headers = Vec<(String, String)>;

/// A list of string pairs, as text.
pub type PairsView = Seq<(Seq<char>, Seq<char>)>;

pub open spec fn pairs_view(v: Seq<(String, String)>) -> PairsView {
    Seq::new(v.len(), |i: int| (v[i].0@, v[i].1@))
}

/// Position of the first header at or after `i` whose key is `key`, ignoring case.
pub open spec fn header_pos_from(h: PairsView, key: Seq<char>, i: int) -> Option<int>
    decreases h.len() - i,
{
    if i < 0 || i >= h.len() {
        None
    } else if eq_ignore_case(h[i].0, key) {
        Some(i)
    } else {
        header_pos_from(h, key, i + 1)
    }
}

/// Position of the first header whose key is `key`, ignoring case.
pub open spec fn header_pos(h: PairsView, key: Seq<char>) -> Option<int> {
    header_pos_from(h, key, 0)
}

/// Value of the first header whose key is `key`, ignoring case.
pub open spec fn header_value(h: PairsView, key: Seq<char>) -> Option<Seq<char>> {
    match header_pos(h, key) {
        Some(i) => Some(h[i].1),
        None => None,
    }
}

pub open spec fn opt_view(o: Option<String>) -> Option<Seq<char>> {
    match o {
        Some(s) => Some(s@),
        None => None,
    }
}

pub proof fn lemma_header_pos_from_bounds(h: PairsView, key: Seq<char>, i: int)
    ensures
        header_pos_from(h, key, i) matches Some(p) ==> i <= p < h.len() && eq_ignore_case(
            h[p].0,
            key,
        ) && forall|j: int| i <= j < p ==> !eq_ignore_case(#[trigger] h[j].0, key),
    decreases h.len() - i,
{
    if 0 <= i < h.len() && !eq_ignore_case(h[i].0, key) {
        lemma_header_pos_from_bounds(h, key, i + 1);
    }
}

/// Finds the first header whose key is `key`, ignoring case.
pub fn find_header(h: &Headers, key: &str) -> (r: Option<usize>)
    ensures
        match r {
            Some(i) => header_pos(pairs_view(h@), key@) == Some(i as int) && i < h@.len(),
            None => header_pos(pairs_view(h@), key@) == None::<int>,
        },
{
    let mut i: usize = 0;
    while i < h.len()
        invariant
            i <= h@.len(),
            header_pos(pairs_view(h@), key@) == header_pos_from(pairs_view(h@), key@, i as int),
        decreases h@.len() - i,
    {
        if eq_ignore_ascii_case(h[i].0.as_str(), key) {
            return Some(i);
        }
        i = i + 1;
    }
    None
}

/// The value of the first header named `key`, ignoring case.
pub fn get_header(h: &Headers, key: &str) -> (r: Option<String>)
    ensures
        opt_view(r) == header_value(pairs_view(h@), key@),
{
    match find_header(h, key) {
        Some(i) => Some(h[i].1.clone()),
        None => None,
    }
}

/// Sets header `key` to `value`: the first header with that key (ignoring
/// case) is replaced, or the pair is appended when there is none.
pub open spec fn with_header(h: PairsView, key: Seq<char>, value: Seq<char>) -> PairsView {
    match header_pos(h, key) {
        Some(i) => h.update(i, (key, value)),
        None => h.push((key, value)),
    }
}

pub fn set_header(h: &mut Headers, key: String, value: String)
    ensures
        pairs_view(final(h)@) == with_header(pairs_view(old(h)@), key@, value@),
        header_value(pairs_view(final(h)@), key@) == Some(value@),
{
    proof {
        lemma_with_header_value(pairs_view(old(h)@), key@, value@);
    }
    match find_header(h, key.as_str()) {
        Some(i) => {
            h.set(i, (key, value));
            assert(pairs_view(h@) =~= with_header(pairs_view(old(h)@), key@, value@));
        },
        None => {
            h.push((key, value));
            assert(pairs_view(h@) =~= with_header(pairs_view(old(h)@), key@, value@));
        },
    }
}

/// A header list that holds `key` in the result of `with_header` yields `value` for it.
pub proof fn lemma_with_header_value(h: PairsView, key: Seq<char>, value: Seq<char>)
    ensures
        header_value(with_header(h, key, value), key) == Some(value),
{
    let h2 = with_header(h, key, value);
    assert(eq_ignore_case(key, key));
    match header_pos(h, key) {
        Some(p) => {
            lemma_header_pos_from_bounds(h, key, 0);
            lemma_header_pos_prefix(h, h2, key, 0, p);
        },
        None => {
            lemma_header_pos_none(h, key, 0);
            lemma_header_pos_prefix(h, h2, key, 0, h.len() as int);
        },
    }
}

proof fn lemma_header_pos_none(h: PairsView, key: Seq<char>, i: int)
    requires
        0 <= i,
        header_pos_from(h, key, i) == None::<int>,
    ensures
        forall|j: int| i <= j < h.len() ==> !eq_ignore_case(#[trigger] h[j].0, key),
    decreases h.len() - i,
{
    if i < h.len() {
        lemma_header_pos_none(h, key, i + 1);
    }
}

/// When `h2` agrees with `h` on the keys before `p`, none of which matches,
/// and `h2[p]` matches, the first match in `h2` is at `p`.
proof fn lemma_header_pos_prefix(
    h: PairsView,
    h2: PairsView,
    key: Seq<char>,
    i: int,
    p: int,
)
    requires
        0 <= i <= p < h2.len(),
        p <= h.len(),
        forall|j: int| i <= j < p ==> !eq_ignore_case(#[trigger] h[j].0, key),
        forall|j: int| i <= j < p ==> h2[j] == #[trigger] h[j],
        eq_ignore_case(h2[p].0, key),
    ensures
        header_pos_from(h2, key, i) == Some(p),
    decreases p - i,
{
    if i < p {
        assert(h2[i] == h[i]);
        lemma_header_pos_prefix(h, h2, key, i + 1, p);
    }
}

/// Position of the first pair at or after `i` whose key is exactly `key`.
pub open spec fn key_pos_from(q: PairsView, key: Seq<char>, i: int) -> Option<int>
    decreases q.len() - i,
{
    if i < 0 || i >= q.len() {
        None
    } else if q[i].0 == key {
        Some(i)
    } else {
        key_pos_from(q, key, i + 1)
    }
}

/// The value of the first query pair whose key is exactly `key`.
pub open spec fn query_value(q: PairsView, key: Seq<char>) -> Option<Seq<char>> {
    match key_pos_from(q, key, 0) {
        Some(i) => Some(q[i].1),
        None => None,
    }
}

/// Sets query `key` to `value`: the pair with that key is replaced, or the
/// pair is appended.
pub open spec fn with_query(q: PairsView, key: Seq<char>, value: Seq<char>) -> PairsView {
    match key_pos_from(q, key, 0) {
        Some(i) => q.update(i, (key, value)),
        None => q.push((key, value)),
    }
}

fn find_key(q: &Vec<(String, String)>, key: &str) -> (r: Option<usize>)
    ensures
        match r {
            Some(i) => key_pos_from(pairs_view(q@), key@, 0) == Some(i as int) && i < q@.len(),
            None => key_pos_from(pairs_view(q@), key@, 0) is None,
        },
{
    let mut i: usize = 0;
    while i < q.len()
        invariant
            i <= q@.len(),
            key_pos_from(pairs_view(q@), key@, 0) == key_pos_from(pairs_view(q@), key@, i as int),
        decreases q@.len() - i,
    {
        if crate::text::same_text(q[i].0.as_str(), key) {
            return Some(i);
        }
        i = i + 1;
    }
    None
}

/// The value of query `key`.
pub fn get_query(q: &Vec<(String, String)>, key: &str) -> (r: Option<String>)
    ensures
        opt_view(r) == query_value(pairs_view(q@), key@),
{
    match find_key(q, key) {
        Some(i) => Some(q[i].1.clone()),
        None => None,
    }
}

/// Sets query `key` to `value`.
pub fn set_query(q: &mut Vec<(String, String)>, key: String, value: String)
    ensures
        pairs_view(final(q)@) == with_query(pairs_view(old(q)@), key@, value@),
{
    match find_key(q, key.as_str()) {
        Some(i) => {
            q.set(i, (key, value));
            assert(pairs_view(q@) =~= with_query(pairs_view(old(q)@), key@, value@));
        },
        None => {
            q.push((key, value));
            assert(pairs_view(q@) =~= with_query(pairs_view(old(q)@), key@, value@));
        },
    }
}

/// One HTTP request, or one WebSocket frame dressed as the request that
/// opened the session.
#[derive(Clone, Debug)]
pub struct Request {
    pub method: String,
    pub host: String,
    pub path: String,
    pub querys: Vec<(String, String)>,
    pub headers: Headers,
    pub body: Vec<u8>,
    pub version: HttpVersion,
    pub upgrade_type: UpgradeType,
}

/// The response being built for one logical request.
#[derive(Clone, Debug)]
pub struct Response {
    pub status_code: usize,
    pub reason_phrase: String,
    pub headers: Headers,
    pub body: Vec<u8>,
}

/// The first `Connection` header whose value is `keep-alive` or `close`
/// (ignoring case), at or after position `i`, decides.
pub open spec fn connection_decision_from(h: PairsView, i: int) -> Option<bool>
    decreases h.len() - i,
{
    if i < 0 || i >= h.len() {
        None
    } else if eq_ignore_case(h[i].0, "connection"@) && eq_ignore_case(h[i].1, "keep-alive"@) {
        Some(true)
    } else if eq_ignore_case(h[i].0, "connection"@) && eq_ignore_case(h[i].1, "close"@) {
        Some(false)
    } else {
        connection_decision_from(h, i + 1)
    }
}

/// Whether the connection stays open after answering a request with these
/// headers and this version.
pub open spec fn keep_alive_of(h: PairsView, version: HttpVersion) -> bool {
    match connection_decision_from(h, 0) {
        Some(b) => b,
        None => version.spec_is_http1_1_or_higher(),
    }
}

/// Whether some `Upgrade` header asks for `websocket` (both ignoring case).
pub open spec fn websocket_requested(h: PairsView) -> bool {
    exists|i: int|
        0 <= i < h.len() && eq_ignore_case(#[trigger] h[i].0, "upgrade"@) && eq_ignore_case(
            h[i].1,
            "websocket"@,
        )
}

impl Request {
    pub open spec fn spec_keep_alive(&self) -> bool {
        keep_alive_of(pairs_view(self.headers@), self.version)
    }

    /// Whether the connection stays open after this request is answered.
    pub fn is_enable_keep_alive(&self) -> (r: bool)
        ensures
            r == self.spec_keep_alive(),
    {
        let h = &self.headers;
        let mut i: usize = 0;
        while i < h.len()
            invariant
                i <= h@.len(),
                h == &self.headers,
                connection_decision_from(pairs_view(h@), 0) == connection_decision_from(pairs_view(h@), i as int),
            decreases h@.len() - i,
        {
            if eq_ignore_ascii_case(h[i].0.as_str(), "connection") {
                if eq_ignore_ascii_case(h[i].1.as_str(), "keep-alive") {
                    return true;
                } else if eq_ignore_ascii_case(h[i].1.as_str(), "close") {
                    return false;
                }
            }
            i = i + 1;
        }
        self.version.is_http1_1_or_higher()
    }

    /// Whether the request asks to switch to WebSocket.
    pub fn is_websocket_requested(&self) -> (r: bool)
        ensures
            r == websocket_requested(pairs_view(self.headers@)),
    {
        let h = &self.headers;
        let mut i: usize = 0;
        while i < h.len()
            invariant
                i <= h@.len(),
                h == &self.headers,
                forall|j: int|
                    0 <= j < i ==> !(eq_ignore_case(#[trigger] pairs_view(h@)[j].0, "upgrade"@)
                        && eq_ignore_case(pairs_view(h@)[j].1, "websocket"@)),
            decreases h@.len() - i,
        {
            if eq_ignore_ascii_case(h[i].0.as_str(), "upgrade") && eq_ignore_ascii_case(
                h[i].1.as_str(),
                "websocket",
            ) {
                assert(pairs_view(h@)[i as int].0 == h@[i as int].0@);
                return true;
            }
            i = i + 1;
        }
        false
    }
}

/// An empty `GET /` request over HTTP/1.1, asking for no upgrade.
pub open spec fn is_default_request(r: Request) -> bool {
    &&& r.method@ == "GET"@
    &&& r.host@.len() == 0
    &&& r.path@ == "/"@
    &&& r.querys@.len() == 0
    &&& r.headers@.len() == 0
    &&& r.body@.len() == 0
    &&& r.version == HttpVersion::Http11
    &&& r.upgrade_type == UpgradeType::Http
}

/// `200 OK` with no headers and an empty body.
pub open spec fn is_default_response(r: Response) -> bool {
    &&& r.status_code == 200
    &&& r.reason_phrase@ == "OK"@
    &&& r.headers@.len() == 0
    &&& r.body@.len() == 0
}

impl Default for Request {
    fn default() -> (r: Self)
        ensures
            is_default_request(r),
    {
        Request {
            method: String::from_str("GET"),
            host: String::new(),
            path: String::from_str("/"),
            querys: Vec::new(),
            headers: Vec::new(),
            body: Vec::new(),
            version: HttpVersion::Http11,
            upgrade_type: UpgradeType::Http,
        }
    }
}

impl Default for Response {
    fn default() -> (r: Self)
        ensures
            is_default_response(r),
    {
        Response {
            status_code: 200,
            reason_phrase: String::from_str("OK"),
            headers: Vec::new(),
            body: Vec::new(),
        }
    }
}

/// The header lines of `h`, in order, each `key: value` and CRLF.
pub open spec fn header_lines(h: PairsView) -> Seq<u8>
    decreases h.len(),
{
    if h.len() == 0 {
        Seq::empty()
    } else {
        header_lines(h.drop_last()) + encode_utf8(h.last().0) + encode_utf8(": "@) + encode_utf8(
            h.last().1,
        ) + encode_utf8("\r\n"@)
    }
}

/// A `content-length` line is added unless the status forbids a body
/// (1xx, 204) or the headers already hold one.
pub open spec fn needs_content_length(r: Response) -> bool {
    &&& !(100 <= r.status_code < 200)
    &&& r.status_code != 204
    &&& header_pos(pairs_view(r.headers@), "content-length"@) is None
}

/// The bytes of a response on the wire.
pub open spec fn encode_response(r: Response) -> Seq<u8> {
    encode_utf8("HTTP/1.1 "@) + encode_utf8(decimal(r.status_code as nat)) + encode_utf8(" "@)
        + encode_utf8(r.reason_phrase@) + encode_utf8("\r\n"@) + header_lines(pairs_view(r.headers@)) + (
    if needs_content_length(r) {
        encode_utf8("content-length: "@) + encode_utf8(decimal(r.body@.len())) + encode_utf8(
            "\r\n"@,
        )
    } else {
        Seq::empty()
    }) + encode_utf8("\r\n"@) + r.body@
}

impl Response {
    /// The response as bytes for the transport.
    pub fn to_bytes(&self) -> (r: Vec<u8>)
        ensures
            r@ == encode_response(*self),
    {
        let mut out: Vec<u8> = Vec::new();
        append_text(&mut out, "HTTP/1.1 ");
        let code = decimal_string(self.status_code);
        append_text(&mut out, code.as_str());
        append_text(&mut out, " ");
        append_text(&mut out, self.reason_phrase.as_str());
        append_text(&mut out, "\r\n");
        let ghost head = out@;
        let h = &self.headers;
        let mut i: usize = 0;
        while i < h.len()
            invariant
                h == &self.headers,
                i <= h@.len(),
                out@ == head + header_lines(pairs_view(h@).subrange(0, i as int)),
            decreases h@.len() - i,
        {
            append_text(&mut out, h[i].0.as_str());
            append_text(&mut out, ": ");
            append_text(&mut out, h[i].1.as_str());
            append_text(&mut out, "\r\n");
            assert(pairs_view(h@).subrange(0, i + 1).drop_last() =~= pairs_view(h@).subrange(
                0,
                i as int,
            ));
            i = i + 1;
        }
        assert(pairs_view(h@).subrange(0, i as int) =~= pairs_view(h@));
        let informational = 100 <= self.status_code && self.status_code < 200;
        if !informational && self.status_code != 204 && find_header(h, "content-length").is_none() {
            append_text(&mut out, "content-length: ");
            let n = decimal_string(self.body.len());
            append_text(&mut out, n.as_str());
            append_text(&mut out, "\r\n");
        }
        append_text(&mut out, "\r\n");
        append_bytes(&mut out, self.body.as_slice());
        out
    }
}

/// The query text `k=v&k=v...` of some pairs.
pub open spec fn query_text(q: PairsView) -> Seq<u8>
    decreases q.len(),
{
    if q.len() == 0 {
        Seq::empty()
    } else if q.len() == 1 {
        encode_utf8(q[0].0) + encode_utf8("="@) + encode_utf8(q[0].1)
    } else {
        query_text(q.drop_last()) + encode_utf8("&"@) + encode_utf8(q.last().0) + encode_utf8("="@)
            + encode_utf8(q.last().1)
    }
}

/// The name of a version on the request line.
pub open spec fn version_text(v: HttpVersion) -> Seq<char> {
    match v {
        HttpVersion::Http10 => "HTTP/1.0"@,
        HttpVersion::Http11 => "HTTP/1.1"@,
        HttpVersion::Http2 => "HTTP/2"@,
        HttpVersion::Http3 => "HTTP/3"@,
        HttpVersion::Unknown => "UNKNOWN"@,
    }
}

impl HttpVersion {
    pub fn text(&self) -> (r: &'static str)
        ensures
            r@ == version_text(*self),
    {
        match self {
            HttpVersion::Http10 => "HTTP/1.0",
            HttpVersion::Http11 => "HTTP/1.1",
            HttpVersion::Http2 => "HTTP/2",
            HttpVersion::Http3 => "HTTP/3",
            HttpVersion::Unknown => "UNKNOWN",
        }
    }
}

/// The bytes of a request: request line (with `?` and the query when there
/// is one), header lines, empty line, body.
pub open spec fn encode_request(r: Request) -> Seq<u8> {
    encode_utf8(r.method@) + encode_utf8(" "@) + encode_utf8(r.path@) + (if r.querys@.len() > 0 {
        encode_utf8("?"@) + query_text(pairs_view(r.querys@))
    } else {
        Seq::empty()
    }) + encode_utf8(" "@) + encode_utf8(version_text(r.version)) + encode_utf8("\r\n"@)
        + header_lines(pairs_view(r.headers@)) + encode_utf8("\r\n"@) + r.body@
}

impl Request {
    /// The request as bytes, as it would be sent.
    pub fn to_bytes(&self) -> (r: Vec<u8>)
        ensures
            r@ == encode_request(*self),
    {
        let mut out: Vec<u8> = Vec::new();
        append_text(&mut out, self.method.as_str());
        append_text(&mut out, " ");
        append_text(&mut out, self.path.as_str());
        let ghost line_start = out@;
        let q = &self.querys;
        if q.len() > 0 {
            append_text(&mut out, "?");
            let ghost qs = out@;
            let mut i: usize = 0;
            while i < q.len()
                invariant
                    q == &self.querys,
                    i <= q@.len(),
                    out@ == qs + query_text(pairs_view(q@).subrange(0, i as int)),
                decreases q@.len() - i,
            {
                if i > 0 {
                    append_text(&mut out, "&");
                }
                append_text(&mut out, q[i].0.as_str());
                append_text(&mut out, "=");
                append_text(&mut out, q[i].1.as_str());
                assert(pairs_view(q@).subrange(0, i + 1).drop_last() =~= pairs_view(q@).subrange(
                    0,
                    i as int,
                ));
                if i == 0 {
                    assert(out@ =~= qs + query_text(pairs_view(q@).subrange(0, 1)));
                }
                i = i + 1;
            }
            assert(pairs_view(q@).subrange(0, i as int) =~= pairs_view(q@));
        }
        append_text(&mut out, " ");
        append_text(&mut out, self.version.text());
        append_text(&mut out, "\r\n");
        let ghost head = out@;
        let h = &self.headers;
        let mut i: usize = 0;
        while i < h.len()
            invariant
                h == &self.headers,
                i <= h@.len(),
                out@ == head + header_lines(pairs_view(h@).subrange(0, i as int)),
            decreases h@.len() - i,
        {
            append_text(&mut out, h[i].0.as_str());
            append_text(&mut out, ": ");
            append_text(&mut out, h[i].1.as_str());
            append_text(&mut out, "\r\n");
            assert(pairs_view(h@).subrange(0, i + 1).drop_last() =~= pairs_view(h@).subrange(
                0,
                i as int,
            ));
            i = i + 1;
        }
        assert(pairs_view(h@).subrange(0, i as int) =~= pairs_view(h@));
        append_text(&mut out, "\r\n");
        append_bytes(&mut out, self.body.as_slice());
        out
    }
}

/// A copy of a list of string pairs.
pub fn copy_pairs(v: &Vec<(String, String)>) -> (r: Vec<(String, String)>)
    ensures
        pairs_view(r@) == pairs_view(v@),
{
    let mut out: Vec<(String, String)> = Vec::new();
    let mut i: usize = 0;
    while i < v.len()
        invariant
            i <= v@.len(),
            pairs_view(out@) =~= pairs_view(v@).subrange(0, i as int),
        decreases v@.len() - i,
    {
        let ghost before = out@;
        out.push((v[i].0.clone(), v[i].1.clone()));
        assert(pairs_view(out@) =~= pairs_view(before).push((v@[i as int].0@, v@[i as int].1@)));
        i = i + 1;
    }
    assert(pairs_view(v@).subrange(0, i as int) =~= pairs_view(v@));
    out
}

impl Request {
    /// This request with another body: how one WebSocket frame becomes a
    /// logical request that keeps the method, path and headers of the
    /// request that opened the session.
    pub fn with_body(&self, body: Vec<u8>) -> (r: Request)
        ensures
            r.method == self.method,
            r.host == self.host,
            r.path == self.path,
            pairs_view(r.querys@) == pairs_view(self.querys@),
            pairs_view(r.headers@) == pairs_view(self.headers@),
            r.version == self.version,
            r.upgrade_type == self.upgrade_type,
            r.body == body,
    {
        Request {
            method: self.method.clone(),
            host: self.host.clone(),
            path: self.path.clone(),
            querys: copy_pairs(&self.querys),
            headers: copy_pairs(&self.headers),
            body,
            version: self.version,
            upgrade_type: self.upgrade_type,
        }
    }
}

} // verus!
