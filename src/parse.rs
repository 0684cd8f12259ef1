//! Reading one HTTP/1.x request head from bytes.
//!
//! A head is the request line and the header lines, each ended by CRLF (a
//! bare LF is accepted), up to the first empty line. The request line is
//! `METHOD SP TARGET SP VERSION`; the target's path ends at the first `?`,
//! after which come `&`-separated `key=value` pairs. A header line is
//! `key:value`, with blanks around the value dropped.
use vstd::prelude::*;
use vstd::utf8::{decode_utf8, valid_utf8};
use crate::error::ServerError;
use crate::http::{
    header_pos, header_value, pairs_view, websocket_requested, Headers, HttpVersion, PairsView,
    Request, UpgradeType,
};
use crate::text::same_text;

verus! {

/// Splits `s` on `sep` from position `i` on, `cur` being the piece read so far.
pub open spec fn split_bytes_from(s: Seq<u8>, sep: u8, i: int, cur: Seq<u8>) -> Seq<Seq<u8>>
    decreases s.len() - i,
{
    if i < 0 || i >= s.len() {
        seq![cur]
    } else if s[i] == sep {
        seq![cur] + split_bytes_from(s, sep, i + 1, Seq::<u8>::empty())
    } else {
        split_bytes_from(s, sep, i + 1, cur.push(s[i]))
    }
}

/// The pieces of `s` between occurrences of `sep`.
pub open spec fn split_bytes(s: Seq<u8>, sep: u8) -> Seq<Seq<u8>> {
    split_bytes_from(s, sep, 0, Seq::<u8>::empty())
}

pub open spec fn bytes_view(v: Seq<Vec<u8>>) -> Seq<Seq<u8>> {
    Seq::new(v.len(), |i: int| v[i]@)
}

/// Position of the first `b` at or after `i`.
pub open spec fn find_byte_from(s: Seq<u8>, b: u8, i: int) -> Option<int>
    decreases s.len() - i,
{
    if i < 0 || i >= s.len() {
        None
    } else if s[i] == b {
        Some(i)
    } else {
        find_byte_from(s, b, i + 1)
    }
}

pub open spec fn find_byte(s: Seq<u8>, b: u8) -> Option<int> {
    find_byte_from(s, b, 0)
}

/// A line without its final carriage return.
pub open spec fn trim_cr(line: Seq<u8>) -> Seq<u8> {
    if line.len() > 0 && line.last() == 13u8 {
        line.drop_last()
    } else {
        line
    }
}

pub open spec fn is_blank(b: u8) -> bool {
    b == 32u8 || b == 9u8
}

pub open spec fn trim_start(s: Seq<u8>) -> Seq<u8>
    decreases s.len(),
{
    if s.len() > 0 && is_blank(s[0]) {
        trim_start(s.drop_first())
    } else {
        s
    }
}

pub open spec fn trim_end(s: Seq<u8>) -> Seq<u8>
    decreases s.len(),
{
    if s.len() > 0 && is_blank(s.last()) {
        trim_end(s.drop_last())
    } else {
        s
    }
}

/// The lines of a head, without line ends.
pub open spec fn head_lines(head: Seq<u8>) -> Seq<Seq<u8>> {
    Seq::new(split_bytes(head, 10u8).len(), |i: int| trim_cr(split_bytes(head, 10u8)[i]))
}

/// Position of the first empty line at or after `i` (or the number of lines).
pub open spec fn first_empty_from(lines: Seq<Seq<u8>>, i: int) -> int
    decreases lines.len() - i,
{
    if i < 0 || i >= lines.len() {
        lines.len() as int
    } else if lines[i].len() == 0 {
        i
    } else {
        first_empty_from(lines, i + 1)
    }
}

/// Splits at the first `sep`: the part before and the part after it.
pub open spec fn split_once(s: Seq<u8>, sep: u8) -> Option<(Seq<u8>, Seq<u8>)> {
    match find_byte(s, sep) {
        Some(i) => Some((s.subrange(0, i), s.subrange(i + 1, s.len() as int))),
        None => None,
    }
}

/// One query pair: `key=value`, or `key` with an empty value.
pub open spec fn query_pair(p: Seq<u8>) -> (Seq<u8>, Seq<u8>) {
    match split_once(p, 61u8) {
        Some((k, v)) => (k, v),
        None => (p, Seq::empty()),
    }
}

/// The query pairs of the text after `?`; none when it is empty.
pub open spec fn query_pairs(q: Seq<u8>) -> Seq<(Seq<u8>, Seq<u8>)> {
    if q.len() == 0 {
        Seq::empty()
    } else {
        Seq::new(split_bytes(q, 38u8).len(), |i: int| query_pair(split_bytes(q, 38u8)[i]))
    }
}

/// One header line: key before the first `:` (not empty), value after it
/// without surrounding blanks.
pub open spec fn header_pair(line: Seq<u8>) -> Option<(Seq<u8>, Seq<u8>)> {
    match split_once(line, 58u8) {
        Some((k, v)) => if k.len() > 0 {
            Some((k, trim_end(trim_start(v))))
        } else {
            None
        },
        None => None,
    }
}

/// A request head as byte pieces, before decoding.
pub struct RawHead {
    pub method: Seq<u8>,
    pub path: Seq<u8>,
    pub querys: Seq<(Seq<u8>, Seq<u8>)>,
    pub version: Seq<u8>,
    pub headers: Seq<(Seq<u8>, Seq<u8>)>,
}

/// Some line in `1..end` is no header line.
pub open spec fn bad_header_line(lines: Seq<Seq<u8>>, end: int) -> bool {
    exists|i: int| 1 <= i < end && #[trigger] header_pair(lines[i]) is None
}

/// The pieces of a head, or none when its shape is wrong.
pub open spec fn raw_head(head: Seq<u8>) -> Option<RawHead> {
    let lines = head_lines(head);
    let parts = split_bytes(lines[0], 32u8);
    let end = first_empty_from(lines, 1);
    if parts.len() != 3 || parts[0].len() == 0 || parts[1].len() == 0 {
        None
    } else if bad_header_line(lines, end) {
        None
    } else {
        let target = parts[1];
        let (path, q) = match split_once(target, 63u8) {
            Some((p, q)) => (p, q),
            None => (target, Seq::empty()),
        };
        Some(
            RawHead {
                method: parts[0],
                path,
                querys: query_pairs(q),
                version: parts[2],
                headers: Seq::new(
                    (end - 1) as nat,
                    |i: int| header_pair(lines[i + 1])->Some_0,
                ),
            },
        )
    }
}

pub open spec fn pair_valid(p: (Seq<u8>, Seq<u8>)) -> bool {
    valid_utf8(p.0) && valid_utf8(p.1)
}

pub open spec fn pairs_valid(p: Seq<(Seq<u8>, Seq<u8>)>) -> bool {
    forall|i: int| 0 <= i < p.len() ==> #[trigger] pair_valid(p[i])
}

/// Every piece of the head is valid UTF-8.
pub open spec fn raw_head_valid(h: RawHead) -> bool {
    &&& valid_utf8(h.method)
    &&& valid_utf8(h.path)
    &&& valid_utf8(h.version)
    &&& pairs_valid(h.querys)
    &&& pairs_valid(h.headers)
}

pub open spec fn decode_pairs(p: Seq<(Seq<u8>, Seq<u8>)>) -> PairsView {
    Seq::new(p.len(), |i: int| (decode_utf8(p[i].0), decode_utf8(p[i].1)))
}

pub open spec fn version_of(v: Seq<char>) -> HttpVersion {
    if v == "HTTP/1.0"@ {
        HttpVersion::Http10
    } else if v == "HTTP/1.1"@ {
        HttpVersion::Http11
    } else if v == "HTTP/2"@ || v == "HTTP/2.0"@ {
        HttpVersion::Http2
    } else if v == "HTTP/3"@ || v == "HTTP/3.0"@ {
        HttpVersion::Http3
    } else {
        HttpVersion::Unknown
    }
}

/// A request asks for WebSocket, for some other protocol, or for none.
pub open spec fn upgrade_of(h: PairsView) -> UpgradeType {
    if websocket_requested(h) {
        UpgradeType::WebSocket
    } else if header_pos(h, "upgrade"@) is Some {
        UpgradeType::Other
    } else {
        UpgradeType::Http
    }
}

/// The request a valid head describes, with an empty body.
pub open spec fn request_of_head(r: Request, h: RawHead) -> bool {
    &&& r.method@ == decode_utf8(h.method)
    &&& r.path@ == decode_utf8(h.path)
    &&& pairs_view(r.querys@) == decode_pairs(h.querys)
    &&& pairs_view(r.headers@) == decode_pairs(h.headers)
    &&& r.version == version_of(decode_utf8(h.version))
    &&& r.host@ == match header_value(decode_pairs(h.headers), "host"@) {
        Some(v) => v,
        None => Seq::empty(),
    }
    &&& r.upgrade_type == upgrade_of(decode_pairs(h.headers))
    &&& r.body@.len() == 0
}

/// Relies on String::from_utf8: it succeeds exactly on valid UTF-8, with
/// the decoded text.
#[verifier::external_body]
fn text_of(b: &[u8]) -> (r: Option<String>)
    ensures
        r is Some <==> valid_utf8(b@),
        r matches Some(s) ==> s@ == decode_utf8(b@),
{
    String::from_utf8(b.to_vec()).ok()
}

/// The bytes `s[a..b]`.
pub fn sub_bytes(s: &[u8], a: usize, b: usize) -> (r: Vec<u8>)
    requires
        a <= b <= s@.len(),
    ensures
        r@ == s@.subrange(a as int, b as int),
{
    let mut out: Vec<u8> = Vec::new();
    let mut i: usize = a;
    while i < b
        invariant
            a <= i <= b <= s@.len(),
            out@ == s@.subrange(a as int, i as int),
        decreases b - i,
    {
        out.push(s[i]);
        i = i + 1;
        assert(s@.subrange(a as int, i as int) =~= s@.subrange(a as int, i - 1).push(s@[i - 1]));
    }
    out
}

/// The pieces of `s` between occurrences of `sep`.
pub fn split_on(s: &[u8], sep: u8) -> (r: Vec<Vec<u8>>)
    ensures
        bytes_view(r@) == split_bytes(s@, sep),
{
    let mut out: Vec<Vec<u8>> = Vec::new();
    let mut cur: Vec<u8> = Vec::new();
    let mut i: usize = 0;
    while i < s.len()
        invariant
            i <= s@.len(),
            split_bytes(s@, sep) == bytes_view(out@) + split_bytes_from(s@, sep, i as int, cur@),
        decreases s@.len() - i,
    {
        if s[i] == sep {
            let ghost before = out@;
            let ghost c = cur@;
            out.push(cur);
            assert(bytes_view(out@) =~= bytes_view(before).push(c));
            assert(bytes_view(before) + split_bytes_from(s@, sep, i as int, c) =~= bytes_view(out@)
                + split_bytes_from(s@, sep, i + 1, Seq::<u8>::empty()));
            cur = Vec::new();
        } else {
            cur.push(s[i]);
        }
        i = i + 1;
    }
    let ghost before = out@;
    let ghost c = cur@;
    out.push(cur);
    assert(bytes_view(out@) =~= bytes_view(before).push(c));
    assert(bytes_view(before) + split_bytes_from(s@, sep, i as int, c) =~= bytes_view(out@));
    out
}

/// Position of the first `b` in `s`.
pub fn find_byte_exec(s: &[u8], b: u8) -> (r: Option<usize>)
    ensures
        match r {
            Some(i) => find_byte(s@, b) == Some(i as int) && i < s@.len(),
            None => find_byte(s@, b) is None,
        },
{
    let mut i: usize = 0;
    while i < s.len()
        invariant
            i <= s@.len(),
            find_byte(s@, b) == find_byte_from(s@, b, i as int),
        decreases s@.len() - i,
    {
        if s[i] == b {
            return Some(i);
        }
        i = i + 1;
    }
    None
}

proof fn lemma_find_byte_bounds(s: Seq<u8>, b: u8, i: int)
    requires
        0 <= i,
    ensures
        find_byte_from(s, b, i) matches Some(p) ==> i <= p < s.len(),
    decreases s.len() - i,
{
    if i < s.len() && s[i] != b {
        lemma_find_byte_bounds(s, b, i + 1);
    }
}

/// Splits at the first `sep`.
pub fn split_once_exec(s: &[u8], sep: u8) -> (r: Option<(Vec<u8>, Vec<u8>)>)
    ensures
        match r {
            Some((a, b)) => split_once(s@, sep) == Some((a@, b@)),
            None => split_once(s@, sep) is None,
        },
{
    match find_byte_exec(s, sep) {
        Some(i) => {
            let n = s.len();
            assert(i < n);
            Some((sub_bytes(s, 0, i), sub_bytes(s, i + 1, n)))
        },
        None => None,
    }
}

/// `line` without its final carriage return.
fn trim_cr_exec(line: &Vec<u8>) -> (r: Vec<u8>)
    ensures
        r@ == trim_cr(line@),
{
    let n = line.len();
    if n > 0 && line[n - 1] == 13u8 {
        sub_bytes(line.as_slice(), 0, n - 1)
    } else {
        sub_bytes(line.as_slice(), 0, n)
    }
}

/// `s` without blanks at either end.
fn trim_exec(s: &Vec<u8>) -> (r: Vec<u8>)
    ensures
        r@ == trim_end(trim_start(s@)),
{
    let n = s.len();
    let mut a: usize = 0;
    assert(s@.subrange(0, n as int) =~= s@);
    while a < n && (s[a] == 32u8 || s[a] == 9u8)
        invariant
            n == s@.len(),
            a <= n,
            trim_start(s@) == trim_start(s@.subrange(a as int, n as int)),
        decreases n - a,
    {
        assert(s@.subrange(a as int, n as int).drop_first() =~= s@.subrange(a + 1, n as int));
        a = a + 1;
    }
    assert(trim_start(s@.subrange(a as int, n as int)) == s@.subrange(a as int, n as int));
    let mut b: usize = n;
    while b > a && (s[b - 1] == 32u8 || s[b - 1] == 9u8)
        invariant
            n == s@.len(),
            a <= b <= n,
            trim_end(trim_start(s@)) == trim_end(s@.subrange(a as int, b as int)),
        decreases b,
    {
        assert(s@.subrange(a as int, b as int).drop_last() =~= s@.subrange(a as int, b - 1));
        b = b - 1;
    }
    sub_bytes(s.as_slice(), a, b)
}

pub open spec fn raw_pairs_view(v: Seq<(Vec<u8>, Vec<u8>)>) -> Seq<(Seq<u8>, Seq<u8>)> {
    Seq::new(v.len(), |i: int| (v[i].0@, v[i].1@))
}

proof fn lemma_split_nonempty(s: Seq<u8>, sep: u8, i: int, cur: Seq<u8>)
    ensures
        split_bytes_from(s, sep, i, cur).len() >= 1,
    decreases s.len() - i,
{
    if 0 <= i < s.len() {
        if s[i] == sep {
            lemma_split_nonempty(s, sep, i + 1, Seq::<u8>::empty());
        } else {
            lemma_split_nonempty(s, sep, i + 1, cur.push(s[i]));
        }
    }
}

proof fn lemma_first_empty_bounds(lines: Seq<Seq<u8>>, i: int)
    requires
        0 <= i,
    ensures
        i <= first_empty_from(lines, i) <= lines.len() || (i > lines.len() && first_empty_from(
            lines,
            i,
        ) == lines.len()),
    decreases lines.len() - i,
{
    if i < lines.len() && lines[i].len() != 0 {
        lemma_first_empty_bounds(lines, i + 1);
    }
}

/// Decodes every piece of a list of pairs; none if one is not UTF-8.
fn decode_pairs_exec(p: &Vec<(Vec<u8>, Vec<u8>)>) -> (r: Option<Headers>)
    ensures
        r is Some <==> pairs_valid(raw_pairs_view(p@)),
        r matches Some(h) ==> pairs_view(h@) == decode_pairs(raw_pairs_view(p@)),
{
    let ghost pv = raw_pairs_view(p@);
    let mut out: Headers = Vec::new();
    let mut i: usize = 0;
    while i < p.len()
        invariant
            pv == raw_pairs_view(p@),
            i <= p@.len(),
            pairs_valid(pv.subrange(0, i as int)),
            pairs_view(out@) =~= decode_pairs(pv).subrange(0, i as int),
        decreases p@.len() - i,
    {
        let k = text_of(p[i].0.as_slice());
        let v = text_of(p[i].1.as_slice());
        assert(pv[i as int] == (p@[i as int].0@, p@[i as int].1@));
        match (k, v) {
            (Some(k), Some(v)) => {
                assert(valid_utf8(pv[i as int].0) && valid_utf8(pv[i as int].1));
                assert(pairs_valid(pv.subrange(0, i + 1))) by {
                    assert forall|j: int| 0 <= j < i + 1 implies #[trigger] pair_valid(
                        pv.subrange(0, i + 1)[j],
                    ) by {
                        if j < i {
                            assert(pv.subrange(0, i + 1)[j] == pv.subrange(0, i as int)[j]);
                        }
                    }
                }
                let ghost before = out@;
                out.push((k, v));
                assert(pairs_view(out@) =~= pairs_view(before).push((k@, v@)));
            },
            _ => {
                assert(!(valid_utf8(pv[i as int].0) && valid_utf8(pv[i as int].1)));
                assert(!pairs_valid(pv)) by {
                    if pairs_valid(pv) {
                        assert(pair_valid(pv[i as int]));
                    }
                }
                return None;
            },
        }
        i = i + 1;
    }
    assert(decode_pairs(pv).subrange(0, i as int) =~= decode_pairs(pv));
    assert(pv.subrange(0, i as int) =~= pv);
    Some(out)
}

/// One header line as key and value bytes.
fn header_pair_exec(line: &Vec<u8>) -> (r: Option<(Vec<u8>, Vec<u8>)>)
    ensures
        match r {
            Some((k, v)) => header_pair(line@) == Some((k@, v@)),
            None => header_pair(line@) is None,
        },
{
    match split_once_exec(line.as_slice(), 58u8) {
        Some((k, v)) => if k.len() > 0 {
            let t = trim_exec(&v);
            Some((k, t))
        } else {
            None
        },
        None => None,
    }
}

/// The query pairs of the text after `?`.
fn parse_query(q: &Vec<u8>) -> (r: Vec<(Vec<u8>, Vec<u8>)>)
    ensures
        raw_pairs_view(r@) == query_pairs(q@),
{
    let mut out: Vec<(Vec<u8>, Vec<u8>)> = Vec::new();
    if q.len() == 0 {
        assert(raw_pairs_view(out@) =~= query_pairs(q@));
        return out;
    }
    let pieces = split_on(q.as_slice(), 38u8);
    let mut i: usize = 0;
    while i < pieces.len()
        invariant
            q@.len() > 0,
            bytes_view(pieces@) == split_bytes(q@, 38u8),
            i <= pieces@.len(),
            raw_pairs_view(out@) =~= query_pairs(q@).subrange(0, i as int),
        decreases pieces@.len() - i,
    {
        let piece = &pieces[i];
        assert(bytes_view(pieces@)[i as int] == piece@);
        let pair = match split_once_exec(piece.as_slice(), 61u8) {
            Some((k, v)) => (k, v),
            None => (sub_bytes(piece.as_slice(), 0, piece.len()), Vec::new()),
        };
        assert(piece@.subrange(0, piece@.len() as int) =~= piece@);
        assert((pair.0@, pair.1@) == query_pair(piece@));
        let ghost before = out@;
        out.push(pair);
        assert(raw_pairs_view(out@) =~= raw_pairs_view(before).push((pair.0@, pair.1@)));
        i = i + 1;
    }
    assert(query_pairs(q@).subrange(0, i as int) =~= query_pairs(q@));
    out
}

/// The version named by the request line.
fn version_exec(v: &String) -> (r: HttpVersion)
    ensures
        r == version_of(v@),
{
    if same_text(v.as_str(), "HTTP/1.0") {
        HttpVersion::Http10
    } else if same_text(v.as_str(), "HTTP/1.1") {
        HttpVersion::Http11
    } else if same_text(v.as_str(), "HTTP/2") || same_text(v.as_str(), "HTTP/2.0") {
        HttpVersion::Http2
    } else if same_text(v.as_str(), "HTTP/3") || same_text(v.as_str(), "HTTP/3.0") {
        HttpVersion::Http3
    } else {
        HttpVersion::Unknown
    }
}

fn invalid(what: &str) -> (r: ServerError)
    ensures
        r matches ServerError::InvalidHttpRequest(_),
{
    ServerError::InvalidHttpRequest(what.to_string())
}

/// Reads a request head (up to and including its empty line) into a request
/// with an empty body. A head of the wrong shape, or with a piece that is
/// not UTF-8, is an invalid request.
pub fn parse_request_head(head: &[u8]) -> (r: Result<Request, ServerError>)
    ensures
        match raw_head(head@) {
            Some(h) => if raw_head_valid(h) {
                r matches Ok(req) && request_of_head(req, h)
            } else {
                r matches Err(ServerError::InvalidHttpRequest(_))
            },
            None => r matches Err(ServerError::InvalidHttpRequest(_)),
        },
{
    let split = split_on(head, 10u8);
    let mut lines: Vec<Vec<u8>> = Vec::new();
    let mut i: usize = 0;
    while i < split.len()
        invariant
            bytes_view(split@) == split_bytes(head@, 10u8),
            i <= split@.len(),
            bytes_view(lines@) =~= head_lines(head@).subrange(0, i as int),
        decreases split@.len() - i,
    {
        assert(bytes_view(split@)[i as int] == split@[i as int]@);
        let line = trim_cr_exec(&split[i]);
        let ghost before = lines@;
        lines.push(line);
        assert(bytes_view(lines@) =~= bytes_view(before).push(line@));
        i = i + 1;
    }
    let ghost hl = head_lines(head@);
    assert(hl.subrange(0, i as int) =~= hl);
    assert(bytes_view(lines@) == hl);
    proof {
        lemma_split_nonempty(head@, 10u8, 0, Seq::<u8>::empty());
    }
    assert(lines@[0]@ == hl[0]);
    let parts = split_on(lines[0].as_slice(), 32u8);
    if parts.len() != 3 || parts[0].len() == 0 || parts[1].len() == 0 {
        if parts.len() == 3 {
            assert(bytes_view(parts@)[0] == parts@[0]@);
            assert(bytes_view(parts@)[1] == parts@[1]@);
        }
        return Err(invalid("malformed request line"));
    }
    assert(bytes_view(parts@)[0] == parts@[0]@);
    assert(bytes_view(parts@)[1] == parts@[1]@);
    assert(bytes_view(parts@)[2] == parts@[2]@);
    // header lines, up to the first empty one
    let mut raw: Vec<(Vec<u8>, Vec<u8>)> = Vec::new();
    let mut j: usize = 1;
    proof {
        lemma_first_empty_bounds(hl, 1);
    }
    while j < lines.len() && lines[j].len() > 0
        invariant
            bytes_view(lines@) == hl,
            hl == head_lines(head@),
            split_bytes(hl[0], 32u8).len() == 3,
            split_bytes(hl[0], 32u8)[0].len() > 0,
            split_bytes(hl[0], 32u8)[1].len() > 0,
            1 <= j <= lines@.len(),
            first_empty_from(hl, 1) == first_empty_from(hl, j as int),
            forall|k: int| 1 <= k < j ==> #[trigger] header_pair(hl[k]) is Some,
            raw_pairs_view(raw@) =~= Seq::new(
                (j - 1) as nat,
                |k: int| header_pair(hl[k + 1])->Some_0,
            ),
        decreases lines@.len() - j,
    {
        assert(hl[j as int] == lines@[j as int]@);
        match header_pair_exec(&lines[j]) {
            Some(pair) => {
                let ghost before = raw@;
                raw.push(pair);
                assert(raw_pairs_view(raw@) =~= raw_pairs_view(before).push((pair.0@, pair.1@)));
            },
            None => {
                proof {
                    lemma_first_empty_bounds(hl, j + 1);
                }
                assert(1 <= j < first_empty_from(hl, 1) && header_pair(hl[j as int]) is None);
                assert(bad_header_line(hl, first_empty_from(hl, 1)));
                assert(raw_head(head@) is None);
                return Err(invalid("malformed header line"));
            },
        }
        j = j + 1;
    }
    assert(j < lines@.len() ==> hl[j as int].len() == 0);
    assert(first_empty_from(hl, j as int) == j);
    let ghost end = first_empty_from(hl, 1);
    assert(!bad_header_line(hl, end));
    let target = &parts[1];
    let (path_bytes, query_bytes) = match split_once_exec(target.as_slice(), 63u8) {
        Some((p, q)) => (p, q),
        None => (sub_bytes(target.as_slice(), 0, target.len()), Vec::new()),
    };
    assert(target@.subrange(0, target@.len() as int) =~= target@);
    let query_raw = parse_query(&query_bytes);
    let ghost rh = raw_head(head@)->Some_0;
    assert(rh.method == parts@[0]@);
    assert(rh.path == path_bytes@);
    assert(rh.querys == raw_pairs_view(query_raw@));
    assert(rh.version == parts@[2]@);
    assert(rh.headers == raw_pairs_view(raw@));
    let method = text_of(parts[0].as_slice());
    let path = text_of(path_bytes.as_slice());
    let version = text_of(parts[2].as_slice());
    let querys = decode_pairs_exec(&query_raw);
    let headers = decode_pairs_exec(&raw);
    match (method, path, version, querys, headers) {
        (Some(method), Some(path), Some(version), Some(querys), Some(headers)) => {
            let host = match crate::http::get_header(&headers, "host") {
                Some(h) => h,
                None => String::new(),
            };
            let mut req = Request {
                method,
                host,
                path,
                querys,
                headers,
                body: Vec::new(),
                version: version_exec(&version),
                upgrade_type: UpgradeType::Http,
            };
            if req.is_websocket_requested() {
                req.upgrade_type = UpgradeType::WebSocket;
            } else if crate::http::find_header(&req.headers, "upgrade").is_some() {
                req.upgrade_type = UpgradeType::Other;
            }
            Ok(req)
        },
        _ => Err(invalid("request head is not UTF-8")),
    }
}

/// The head ends at `e`: the four bytes before `e` are CR LF CR LF.
pub open spec fn head_ends_at(buf: Seq<u8>, e: int) -> bool {
    &&& 4 <= e <= buf.len()
    &&& buf[e - 4] == 13u8
    &&& buf[e - 3] == 10u8
    &&& buf[e - 2] == 13u8
    &&& buf[e - 1] == 10u8
}

/// Where the first complete head in `buf` ends, if one is complete.
pub fn find_head_end(buf: &[u8]) -> (r: Option<usize>)
    ensures
        match r {
            Some(e) => head_ends_at(buf@, e as int) && forall|f: int|
                0 <= f < e ==> !#[trigger] head_ends_at(buf@, f),
            None => forall|f: int| 0 <= f <= buf@.len() ==> !#[trigger] head_ends_at(buf@, f),
        },
{
    let n = buf.len();
    if n < 4 {
        return None;
    }
    let mut i: usize = 0;
    while i < n - 3
        invariant
            n == buf@.len(),
            n >= 4,
            i <= n - 3,
            forall|f: int| 0 <= f < i + 4 ==> !#[trigger] head_ends_at(buf@, f),
        decreases n - 3 - i,
    {
        if buf[i] == 13u8 && buf[i + 1] == 10u8 && buf[i + 2] == 13u8 && buf[i + 3] == 10u8 {
            assert(head_ends_at(buf@, i + 4));
            return Some(i + 4);
        }
        i = i + 1;
    }
    None
}

pub open spec fn is_digit(c: char) -> bool {
    '0' <= c && c <= '9'
}

/// The number written by decimal digits.
pub open spec fn digits_value(s: Seq<char>) -> nat
    decreases s.len(),
{
    if s.len() == 0 {
        0
    } else {
        digits_value(s.drop_last()) * 10 + ((s.last() as u32) - ('0' as u32)) as nat
    }
}

/// The body length a request announces: its `Content-Length` header, made
/// of decimal digits only; zero without the header.
pub open spec fn content_length_of(h: PairsView) -> Option<nat> {
    match header_value(h, "content-length"@) {
        None => Some(0),
        Some(v) => if v.len() > 0 && forall|i: int| 0 <= i < v.len() ==> is_digit(#[trigger] v[i]) {
            Some(digits_value(v))
        } else {
            None
        },
    }
}

/// The body length announced by the headers; none when the header is not
/// a number or the number does not fit.
pub fn content_length(h: &Headers) -> (r: Option<usize>)
    ensures
        match content_length_of(pairs_view(h@)) {
            Some(n) => if n <= usize::MAX {
                r == Some(n as usize)
            } else {
                r is None
            },
            None => r is None,
        },
{
    let v = match crate::http::get_header(h, "content-length") {
        None => {
            return Some(0);
        },
        Some(v) => v,
    };
    let cs = crate::text::chars_of(v.as_str());
    if cs.len() == 0 {
        return None;
    }
    let mut acc: usize = 0;
    let mut i: usize = 0;
    while i < cs.len()
        invariant
            cs@ == v@,
            v@.len() > 0,
            header_value(pairs_view(h@), "content-length"@) == Some(v@),
            i <= cs@.len(),
            forall|j: int| 0 <= j < i ==> is_digit(#[trigger] cs@[j]),
            acc as nat == digits_value(cs@.subrange(0, i as int)),
        decreases cs@.len() - i,
    {
        let c = cs[i];
        if !('0' <= c && c <= '9') {
            assert(!is_digit(v@[i as int]));
            return None;
        }
        let d: usize = ((c as u32) - ('0' as u32)) as usize;
        assert(cs@.subrange(0, i + 1).drop_last() =~= cs@.subrange(0, i as int));
        assert(digits_value(cs@.subrange(0, i + 1)) == acc * 10 + d);
        if acc > (usize::MAX - d) / 10 {
            proof {
                lemma_digits_grow(cs@, i as int + 1);
                assert(acc * 10 + d > usize::MAX) by (nonlinear_arith)
                    requires
                        acc > (usize::MAX - d) / 10,
                        d <= 9,
                ;
            }
            return None;
        }
        acc = acc * 10 + d;
        i = i + 1;
    }
    assert(cs@.subrange(0, i as int) =~= cs@);
    Some(acc)
}

/// A longer digit string is worth at least as much as its prefix.
proof fn lemma_digits_grow(s: Seq<char>, k: int)
    requires
        0 <= k <= s.len(),
    ensures
        digits_value(s.subrange(0, k)) <= digits_value(s),
    decreases s.len() - k,
{
    if k < s.len() {
        lemma_digits_grow(s, k + 1);
        assert(s.subrange(0, k + 1).drop_last() =~= s.subrange(0, k));
    } else {
        assert(s.subrange(0, k) =~= s);
    }
}

} // verus!
