//! Route resolution: an exact table of literal paths, checked first, and a
//! matcher of patterns with `:name` parameter segments, checked on a miss.
use vstd::prelude::*;
use vstd::string::StrSliceExecFns;
use crate::error::RouteError;
use crate::http::pairs_view;
use crate::text::{chars_of, same_text, string_of};

verus! {

/// Handlers are held by the embedding application; routes refer to them by index.
pub type HandlerId = usize;

/// Splits `s` on `/` from position `i` on, `cur` being the piece read so far.
pub open spec fn split_from(s: Seq<char>, i: int, cur: Seq<char>) -> Seq<Seq<char>>
    decreases s.len() - i,
{
    if i < 0 || i >= s.len() {
        seq![cur]
    } else if s[i] == '/' {
        seq![cur] + split_from(s, i + 1, Seq::<char>::empty())
    } else {
        split_from(s, i + 1, cur.push(s[i]))
    }
}

/// The segments of a path: after one leading `/`, the pieces between slashes.
/// `/user/42` has segments `user`, `42`; `/user/` has `user` and an empty one.
pub open spec fn path_segments(p: Seq<char>) -> Seq<Seq<char>> {
    if p.len() > 0 && p[0] == '/' {
        split_from(p, 1, Seq::<char>::empty())
    } else {
        split_from(p, 0, Seq::<char>::empty())
    }
}

pub open spec fn strings_view(v: Seq<String>) -> Seq<Seq<char>> {
    Seq::new(v.len(), |i: int| v[i]@)
}


/// The segments of a path, as strings.
pub fn split_path(p: &str) -> (r: Vec<String>)
    ensures
        strings_view(r@) == path_segments(p@),
{
    let cs = chars_of(p);
    let n = cs.len();
    let mut i: usize = if n > 0 && cs[0] == '/' {
        1
    } else {
        0
    };
    let ghost start = i as int;
    let mut out: Vec<String> = Vec::new();
    let mut cur: Vec<char> = Vec::new();
    while i < n
        invariant
            n == cs@.len(),
            cs@ == p@,
            start <= i <= n,
            path_segments(p@) == strings_view(out@) + split_from(cs@, i as int, cur@),
            path_segments(p@) == split_from(cs@, start, Seq::<char>::empty()),
        decreases n - i,
    {
        if cs[i] == '/' {
            let piece = string_of(cur.as_slice());
            let ghost before = out@;
            out.push(piece);
            assert(strings_view(out@) =~= strings_view(before).push(piece@));
            assert(strings_view(before) + split_from(cs@, i as int, cur@) =~= strings_view(out@)
                + split_from(cs@, i + 1, Seq::<char>::empty()));
            cur = Vec::new();
        } else {
            cur.push(cs[i]);
        }
        i = i + 1;
    }
    let piece = string_of(cur.as_slice());
    let ghost before = out@;
    out.push(piece);
    assert(strings_view(out@) =~= strings_view(before).push(piece@));
    assert(strings_view(before) + split_from(cs@, i as int, cur@) =~= strings_view(out@));
    out
}

/// One segment of a route pattern.
#[derive(Clone, Debug)]
pub enum Segment {
    /// Matches exactly this text.
    Literal(String),
    /// Matches any non-empty segment and captures it under this name.
    Param(String),
}

/// A segment of a pattern, as text.
pub enum SegView {
    Literal(Seq<char>),
    Param(Seq<char>),
}

impl View for Segment {
    type V = SegView;

    open spec fn view(&self) -> SegView {
        match self {
            Segment::Literal(l) => SegView::Literal(l@),
            Segment::Param(n) => SegView::Param(n@),
        }
    }
}

pub open spec fn segs_view(v: Seq<Segment>) -> Seq<SegView> {
    Seq::new(v.len(), |i: int| v[i]@)
}

/// A piece of a pattern that starts with `:` is a parameter named by the rest.
pub open spec fn segment_of(piece: Seq<char>) -> SegView {
    if piece.len() > 0 && piece[0] == ':' {
        SegView::Param(piece.drop_first())
    } else {
        SegView::Literal(piece)
    }
}

/// The segments of a pattern written as a path.
pub open spec fn pattern_of(raw: Seq<char>) -> Seq<SegView> {
    Seq::new(path_segments(raw).len(), |i: int| segment_of(path_segments(raw)[i]))
}

pub open spec fn segment_matches(p: SegView, s: Seq<char>) -> bool {
    match p {
        SegView::Literal(l) => l == s,
        SegView::Param(_) => s.len() > 0,
    }
}

/// A pattern matches a path when it has as many segments and each matches.
pub open spec fn pattern_matches(pat: Seq<SegView>, segs: Seq<Seq<char>>) -> bool {
    &&& pat.len() == segs.len()
    &&& forall|i: int| 0 <= i < pat.len() ==> segment_matches(#[trigger] pat[i], segs[i])
}

/// The captured `(name, value)` pairs from position `i` on, in pattern order.
pub open spec fn captures_from(pat: Seq<SegView>, segs: Seq<Seq<char>>, i: int) -> Seq<
    (Seq<char>, Seq<char>),
>
    decreases pat.len() - i,
{
    if i < 0 || i >= pat.len() {
        Seq::empty()
    } else {
        match pat[i] {
            SegView::Param(n) => seq![(n, segs[i])] + captures_from(pat, segs, i + 1),
            SegView::Literal(_) => captures_from(pat, segs, i + 1),
        }
    }
}

pub open spec fn captures(pat: Seq<SegView>, segs: Seq<Seq<char>>) -> Seq<(Seq<char>, Seq<char>)> {
    captures_from(pat, segs, 0)
}

/// Two segments overlap when some path segment matches both.
pub open spec fn segments_overlap(a: SegView, b: SegView) -> bool {
    match (a, b) {
        (SegView::Literal(x), SegView::Literal(y)) => x == y,
        (SegView::Literal(x), SegView::Param(_)) => x.len() > 0,
        (SegView::Param(_), SegView::Literal(y)) => y.len() > 0,
        (SegView::Param(_), SegView::Param(_)) => true,
    }
}

/// Two patterns overlap when some path matches both.
pub open spec fn patterns_overlap(a: Seq<SegView>, b: Seq<SegView>) -> bool {
    &&& a.len() == b.len()
    &&& forall|i: int| 0 <= i < a.len() ==> segments_overlap(#[trigger] a[i], b[i])
}

/// Reads one piece of a pattern.
fn parse_segment(piece: &str) -> (r: Segment)
    ensures
        r@ == segment_of(piece@),
{
    let n = piece.unicode_len();
    if n > 0 && piece.get_char(0) == ':' {
        let name = piece.substring_char(1, n);
        assert(name@ =~= piece@.drop_first());
        Segment::Param(name.to_string())
    } else {
        Segment::Literal(piece.to_string())
    }
}

/// Reads a pattern written as a path, such as `/user/:id`.
pub fn parse_pattern(raw: &str) -> (r: Vec<Segment>)
    ensures
        segs_view(r@) == pattern_of(raw@),
{
    let pieces = split_path(raw);
    let mut out: Vec<Segment> = Vec::new();
    let mut i: usize = 0;
    while i < pieces.len()
        invariant
            i <= pieces@.len(),
            strings_view(pieces@) == path_segments(raw@),
            segs_view(out@) =~= pattern_of(raw@).subrange(0, i as int),
        decreases pieces@.len() - i,
    {
        let seg = parse_segment(pieces[i].as_str());
        assert(strings_view(pieces@)[i as int] == pieces@[i as int]@);
        assert(pattern_of(raw@)[i as int] == seg@);
        let ghost before = out@;
        out.push(seg);
        assert(segs_view(out@) =~= segs_view(before).push(seg@));
        assert(pattern_of(raw@).subrange(0, i + 1) =~= pattern_of(raw@).subrange(0, i as int).push(
            seg@,
        ));
        i = i + 1;
    }
    assert(pattern_of(raw@).subrange(0, i as int) =~= pattern_of(raw@));
    out
}

/// Matches a pattern against the segments of a path; on a match, returns
/// the captured parameters.
pub fn match_segments(pat: &Vec<Segment>, segs: &Vec<String>) -> (r: Option<Vec<(String, String)>>)
    ensures
        r is Some <==> pattern_matches(segs_view(pat@), strings_view(segs@)),
        r matches Some(v) ==> pairs_view(v@) == captures(segs_view(pat@), strings_view(segs@)),
{
    let ghost p = segs_view(pat@);
    let ghost sv = strings_view(segs@);
    if pat.len() != segs.len() {
        return None;
    }
    let mut out: Vec<(String, String)> = Vec::new();
    let mut i: usize = 0;
    while i < pat.len()
        invariant
            p == segs_view(pat@),
            sv == strings_view(segs@),
            pat@.len() == segs@.len(),
            i <= pat@.len(),
            forall|j: int| 0 <= j < i ==> segment_matches(#[trigger] p[j], sv[j]),
            captures(p, sv) == pairs_view(out@) + captures_from(p, sv, i as int),
        decreases pat@.len() - i,
    {
        let s = &segs[i];
        assert(p[i as int] == pat@[i as int]@);
        assert(sv[i as int] == s@);
        match &pat[i] {
            Segment::Literal(l) => {
                if !same_text(l.as_str(), s.as_str()) {
                    return None;
                }
            },
            Segment::Param(name) => {
                if s.unicode_len() == 0 {
                    return None;
                }
                let ghost before = out@;
                out.push((name.clone(), s.clone()));
                assert(pairs_view(out@) =~= pairs_view(before).push((name@, s@)));
                assert(pairs_view(before) + captures_from(p, sv, i as int) =~= pairs_view(out@)
                    + captures_from(p, sv, i + 1));
            },
        }
        i = i + 1;
    }
    assert(pairs_view(out@) + captures_from(p, sv, i as int) =~= pairs_view(out@));
    Some(out)
}

/// Whether some path matches both patterns.
pub fn overlap(a: &Vec<Segment>, b: &Vec<Segment>) -> (r: bool)
    ensures
        r == patterns_overlap(segs_view(a@), segs_view(b@)),
{
    let ghost av = segs_view(a@);
    let ghost bv = segs_view(b@);
    if a.len() != b.len() {
        return false;
    }
    let mut i: usize = 0;
    while i < a.len()
        invariant
            av == segs_view(a@),
            bv == segs_view(b@),
            a@.len() == b@.len(),
            i <= a@.len(),
            forall|j: int| 0 <= j < i ==> segments_overlap(#[trigger] av[j], bv[j]),
        decreases a@.len() - i,
    {
        assert(av[i as int] == a@[i as int]@);
        assert(bv[i as int] == b@[i as int]@);
        let ok = match (&a[i], &b[i]) {
            (Segment::Literal(x), Segment::Literal(y)) => same_text(x.as_str(), y.as_str()),
            (Segment::Literal(x), Segment::Param(_)) => x.unicode_len() > 0,
            (Segment::Param(_), Segment::Literal(y)) => y.unicode_len() > 0,
            (Segment::Param(_), Segment::Param(_)) => true,
        };
        if !ok {
            return false;
        }
        i = i + 1;
    }
    true
}

/// Whether a pattern has a parameter segment; one without is a literal path.
pub open spec fn has_param(p: Seq<SegView>) -> bool {
    exists|i: int| 0 <= i < p.len() && #[trigger] p[i] is Param
}

/// Whether `route`, read as a pattern, has a `:name` segment.
pub fn has_param_segment(route: &str) -> (r: bool)
    ensures
        r == has_param(pattern_of(route@)),
{
    let segs = parse_pattern(route);
    let ghost sv = segs_view(segs@);
    let mut i: usize = 0;
    while i < segs.len()
        invariant
            sv == segs_view(segs@),
            sv == pattern_of(route@),
            i <= segs@.len(),
            forall|j: int| 0 <= j < i ==> !(#[trigger] sv[j] is Param),
        decreases segs@.len() - i,
    {
        assert(sv[i as int] == segs@[i as int]@);
        match &segs[i] {
            Segment::Param(_) => {
                return true;
            },
            Segment::Literal(_) => {},
        }
        i = i + 1;
    }
    false
}

/// Position of the first entry at or after `i` whose path is exactly `key`.
pub open spec fn table_pos_from(e: Seq<(String, HandlerId)>, key: Seq<char>, i: int) -> Option<int>
    decreases e.len() - i,
{
    if i < 0 || i >= e.len() {
        None
    } else if e[i].0@ == key {
        Some(i)
    } else {
        table_pos_from(e, key, i + 1)
    }
}

/// The handler registered for exactly this path.
pub open spec fn table_lookup(e: Seq<(String, HandlerId)>, key: Seq<char>) -> Option<HandlerId> {
    match table_pos_from(e, key, 0) {
        Some(i) => Some(e[i].1),
        None => None,
    }
}

/// The entries after registering `h` for exactly `path`: the entry for that
/// path is replaced, or a new one is appended.
pub open spec fn with_route(e: Seq<(String, HandlerId)>, path: String, h: HandlerId) -> Seq<
    (String, HandlerId),
> {
    match table_pos_from(e, path@, 0) {
        Some(i) => e.update(i, (path, h)),
        None => e.push((path, h)),
    }
}

proof fn lemma_table_pos_found(e: Seq<(String, HandlerId)>, key: Seq<char>, i: int)
    requires
        0 <= i,
    ensures
        table_pos_from(e, key, i) matches Some(p) ==> i <= p < e.len() && e[p].0@ == key && forall|
            j: int,
        | i <= j < p ==> (#[trigger] e[j]).0@ != key,
        table_pos_from(e, key, i) is None ==> forall|j: int|
            i <= j < e.len() && 0 <= j ==> (#[trigger] e[j]).0@ != key,
    decreases e.len() - i,
{
    if 0 <= i < e.len() && e[i].0@ != key {
        lemma_table_pos_found(e, key, i + 1);
    }
}

proof fn lemma_table_pos_at(e: Seq<(String, HandlerId)>, key: Seq<char>, i: int, p: int)
    requires
        0 <= i <= p < e.len(),
        e[p].0@ == key,
        forall|j: int| i <= j < p ==> (#[trigger] e[j]).0@ != key,
    ensures
        table_pos_from(e, key, i) == Some(p),
    decreases p - i,
{
    if i < p {
        lemma_table_pos_at(e, key, i + 1, p);
    }
}

/// Once `h` is registered for exactly `path`, looking `path` up gives `h`.
pub proof fn lemma_with_route_lookup(e: Seq<(String, HandlerId)>, path: String, h: HandlerId)
    ensures
        table_lookup(with_route(e, path, h), path@) == Some(h),
{
    let e2 = with_route(e, path, h);
    lemma_table_pos_found(e, path@, 0);
    match table_pos_from(e, path@, 0) {
        Some(p) => {
            assert forall|j: int| 0 <= j < p implies (#[trigger] e2[j]).0@ != path@ by {
                assert(e2[j] == e[j]);
            }
            lemma_table_pos_at(e2, path@, 0, p);
        },
        None => {
            assert forall|j: int| 0 <= j < e.len() implies (#[trigger] e2[j]).0@ != path@ by {
                assert(e2[j] == e[j]);
            }
            lemma_table_pos_at(e2, path@, 0, e.len() as int);
        },
    }
}

/// Exact routes: literal path to handler, one entry per path.
pub struct RouteTable {
    pub entries: Vec<(String, HandlerId)>,
}

impl RouteTable {
    /// No path appears twice.
    pub open spec fn wf(&self) -> bool {
        forall|i: int, j: int|
            0 <= i < j < self.entries@.len() ==> (#[trigger] self.entries@[i]).0@
                != (#[trigger] self.entries@[j]).0@
    }

    pub fn new() -> (r: Self)
        ensures
            r.wf(),
            r.entries@.len() == 0,
    {
        RouteTable { entries: Vec::new() }
    }

    fn position(&self, path: &str) -> (r: Option<usize>)
        ensures
            match r {
                Some(i) => table_pos_from(self.entries@, path@, 0) == Some(i as int) && i
                    < self.entries@.len(),
                None => table_pos_from(self.entries@, path@, 0) is None,
            },
    {
        let mut i: usize = 0;
        while i < self.entries.len()
            invariant
                i <= self.entries@.len(),
                table_pos_from(self.entries@, path@, 0) == table_pos_from(
                    self.entries@,
                    path@,
                    i as int,
                ),
            decreases self.entries@.len() - i,
        {
            if same_text(self.entries[i].0.as_str(), path) {
                return Some(i);
            }
            i = i + 1;
        }
        None
    }

    /// Registers `h` for exactly `path`, replacing an earlier handler for it.
    pub fn insert(&mut self, path: String, h: HandlerId)
        requires
            old(self).wf(),
        ensures
            final(self).wf(),
            final(self).entries@ == with_route(old(self).entries@, path, h),
    {
        let ghost e = self.entries@;
        proof {
            lemma_table_pos_found(e, path@, 0);
        }
        match self.position(path.as_str()) {
            Some(i) => {
                self.entries.set(i, (path, h));
                assert forall|a: int, b: int|
                    0 <= a < b < self.entries@.len() implies (#[trigger] self.entries@[a]).0@
                    != (#[trigger] self.entries@[b]).0@ by {
                    assert(a != i ==> self.entries@[a] == e[a]);
                    assert(b != i ==> self.entries@[b] == e[b]);
                    assert(e[i as int].0@ == path@);
                }
            },
            None => {
                self.entries.push((path, h));
                assert forall|a: int, b: int|
                    0 <= a < b < self.entries@.len() implies (#[trigger] self.entries@[a]).0@
                    != (#[trigger] self.entries@[b]).0@ by {
                    assert(self.entries@[a] == e[a]);
                    if b < e.len() {
                        assert(self.entries@[b] == e[b]);
                    }
                }
            },
        }
    }

    /// The handler registered for exactly `path`.
    pub fn get(&self, path: &str) -> (r: Option<HandlerId>)
        ensures
            r == table_lookup(self.entries@, path@),
    {
        match self.position(path) {
            Some(i) => Some(self.entries[i].1),
            None => None,
        }
    }
}

pub open spec fn entry_pattern(e: (Vec<Segment>, HandlerId)) -> Seq<SegView> {
    segs_view(e.0@)
}

/// Position of the first pattern at or after `i` that matches the segments.
pub open spec fn first_match_from(
    e: Seq<(Vec<Segment>, HandlerId)>,
    segs: Seq<Seq<char>>,
    i: int,
) -> Option<int>
    decreases e.len() - i,
{
    if i < 0 || i >= e.len() {
        None
    } else if pattern_matches(entry_pattern(e[i]), segs) {
        Some(i)
    } else {
        first_match_from(e, segs, i + 1)
    }
}

/// Whether the pattern overlaps one of the registered ones.
pub open spec fn overlaps_any(e: Seq<(Vec<Segment>, HandlerId)>, pat: Seq<SegView>) -> bool {
    exists|i: int| 0 <= i < e.len() && patterns_overlap(entry_pattern(#[trigger] e[i]), pat)
}

/// The handler and captures that the pattern entries give for a path.
pub open spec fn pattern_lookup(e: Seq<(Vec<Segment>, HandlerId)>, path: Seq<char>) -> Option<
    (HandlerId, Seq<(Seq<char>, Seq<char>)>),
> {
    match first_match_from(e, path_segments(path), 0) {
        Some(i) => Some((e[i].1, captures(entry_pattern(e[i]), path_segments(path)))),
        None => None,
    }
}

/// Pattern routes; no two registered patterns overlap.
pub struct RouteMatcher {
    pub entries: Vec<(Vec<Segment>, HandlerId)>,
}

impl RouteMatcher {
    /// No path matches two registered patterns.
    pub open spec fn wf(&self) -> bool {
        forall|i: int, j: int|
            0 <= i < j < self.entries@.len() ==> !patterns_overlap(
                entry_pattern(#[trigger] self.entries@[i]),
                entry_pattern(#[trigger] self.entries@[j]),
            )
    }

    pub fn new() -> (r: Self)
        ensures
            r.wf(),
            r.entries@.len() == 0,
    {
        RouteMatcher { entries: Vec::new() }
    }

    /// Registers a pattern such as `/user/:id`. A pattern that overlaps a
    /// registered one (some path would match both) is refused, and nothing changes.
    pub fn add(&mut self, pattern: &str, h: HandlerId) -> (r: Result<(), RouteError>)
        requires
            old(self).wf(),
        ensures
            final(self).wf(),
            r is Err <==> overlaps_any(old(self).entries@, pattern_of(pattern@)),
            r matches Err(RouteError::DuplicatePattern(p)) ==> p@ == pattern@,
            r is Err ==> final(self).entries@ == old(self).entries@,
            r is Ok ==> final(self).entries@.len() == old(self).entries@.len() + 1
                && final(self).entries@.drop_last() == old(self).entries@
                && entry_pattern(final(self).entries@.last()) == pattern_of(pattern@)
                && final(self).entries@.last().1 == h,
    {
        let segs = parse_pattern(pattern);
        let mut i: usize = 0;
        while i < self.entries.len()
            invariant
                segs_view(segs@) == pattern_of(pattern@),
                self.entries@ == old(self).entries@,
                self.wf(),
                i <= self.entries@.len(),
                forall|j: int|
                    0 <= j < i ==> !patterns_overlap(
                        entry_pattern(#[trigger] self.entries@[j]),
                        pattern_of(pattern@),
                    ),
            decreases self.entries@.len() - i,
        {
            if overlap(&self.entries[i].0, &segs) {
                return Err(RouteError::DuplicatePattern(pattern.to_string()));
            }
            i = i + 1;
        }
        let ghost e = self.entries@;
        self.entries.push((segs, h));
        assert(self.entries@.drop_last() =~= e);
        assert forall|a: int, b: int|
            0 <= a < b < self.entries@.len() implies !patterns_overlap(
            entry_pattern(#[trigger] self.entries@[a]),
            entry_pattern(#[trigger] self.entries@[b]),
        ) by {
            assert(self.entries@[a] == e[a]);
            if b < e.len() {
                assert(self.entries@[b] == e[b]);
            }
        }
        Ok(())
    }

    /// The handler of the pattern that matches `path`, with the captured parameters.
    pub fn match_route(&self, path: &str) -> (r: Option<(HandlerId, Vec<(String, String)>)>)
        ensures
            match r {
                Some((h, params)) => pattern_lookup(self.entries@, path@) == Some(
                    (h, pairs_view(params@)),
                ),
                None => pattern_lookup(self.entries@, path@) is None,
            },
    {
        let segs = split_path(path);
        let mut i: usize = 0;
        while i < self.entries.len()
            invariant
                strings_view(segs@) == path_segments(path@),
                i <= self.entries@.len(),
                first_match_from(self.entries@, path_segments(path@), 0) == first_match_from(
                    self.entries@,
                    path_segments(path@),
                    i as int,
                ),
            decreases self.entries@.len() - i,
        {
            match match_segments(&self.entries[i].0, &segs) {
                Some(params) => {
                    return Some((self.entries[i].1, params));
                },
                None => {},
            }
            i = i + 1;
        }
        None
    }
}

/// What resolution gives for a path: the exact table first, then the patterns.
pub open spec fn resolve_spec(
    table: Seq<(String, HandlerId)>,
    patterns: Seq<(Vec<Segment>, HandlerId)>,
    path: Seq<char>,
) -> Option<(HandlerId, Seq<(Seq<char>, Seq<char>)>)> {
    match table_lookup(table, path) {
        Some(h) => Some((h, Seq::empty())),
        None => pattern_lookup(patterns, path),
    }
}

pub open spec fn route_view(r: Option<(HandlerId, Vec<(String, String)>)>) -> Option<
    (HandlerId, Seq<(Seq<char>, Seq<char>)>),
> {
    match r {
        Some((h, params)) => Some((h, pairs_view(params@))),
        None => None,
    }
}

/// The exact table and the pattern matcher together.
pub struct Router {
    pub table: RouteTable,
    pub matcher: RouteMatcher,
}

impl Router {
    pub open spec fn wf(&self) -> bool {
        self.table.wf() && self.matcher.wf()
    }

    pub open spec fn spec_resolve(&self, path: Seq<char>) -> Option<
        (HandlerId, Seq<(Seq<char>, Seq<char>)>),
    > {
        resolve_spec(self.table.entries@, self.matcher.entries@, path)
    }

    pub fn new() -> (r: Self)
        ensures
            r.wf(),
            r.table.entries@.len() == 0,
            r.matcher.entries@.len() == 0,
            forall|p: Seq<char>| r.spec_resolve(p) is None,
    {
        Router { table: RouteTable::new(), matcher: RouteMatcher::new() }
    }

    /// Registers `h` for exactly `path`; always succeeds, replacing an earlier handler.
    pub fn register_exact(&mut self, path: String, h: HandlerId)
        requires
            old(self).wf(),
        ensures
            final(self).wf(),
            final(self).table.entries@ == with_route(old(self).table.entries@, path, h),
            final(self).matcher == old(self).matcher,
    {
        self.table.insert(path, h);
    }

    /// Registers a pattern; refused when it overlaps a registered pattern.
    pub fn register_pattern(&mut self, pattern: &str, h: HandlerId) -> (r: Result<(), RouteError>)
        requires
            old(self).wf(),
        ensures
            final(self).wf(),
            final(self).table == old(self).table,
            r is Err <==> overlaps_any(old(self).matcher.entries@, pattern_of(pattern@)),
            r matches Err(RouteError::DuplicatePattern(p)) ==> p@ == pattern@,
            r is Err ==> final(self).matcher.entries@ == old(self).matcher.entries@,
            r is Ok ==> final(self).matcher.entries@.drop_last() == old(self).matcher.entries@
                && final(self).matcher.entries@.len() == old(self).matcher.entries@.len() + 1
                && entry_pattern(final(self).matcher.entries@.last()) == pattern_of(pattern@)
                && final(self).matcher.entries@.last().1 == h,
    {
        self.matcher.add(pattern, h)
    }

    /// The handler for `path` and its parameters: an exact route wins, with no
    /// parameters; else the matching pattern, with its captures; else none.
    pub fn resolve(&self, path: &str) -> (r: Option<(HandlerId, Vec<(String, String)>)>)
        ensures
            route_view(r) == self.spec_resolve(path@),
    {
        match self.table.get(path) {
            Some(h) => Some((h, Vec::new())),
            None => self.matcher.match_route(path),
        }
    }
}

/// Exact-before-pattern precedence: once `h` is registered for exactly
/// `path`, resolving `path` gives `h` with no parameters, whatever patterns
/// are registered.
pub proof fn lemma_exact_route_wins(
    table: Seq<(String, HandlerId)>,
    patterns: Seq<(Vec<Segment>, HandlerId)>,
    path: String,
    h: HandlerId,
)
    ensures
        resolve_spec(with_route(table, path, h), patterns, path@) == Some(
            (h, Seq::<(Seq<char>, Seq<char>)>::empty()),
        ),
{
    lemma_with_route_lookup(table, path, h);
}

/// Every pattern overlaps itself.
pub proof fn lemma_pattern_overlaps_itself(a: Seq<SegView>)
    ensures
        patterns_overlap(a, a),
{
    assert forall|i: int| 0 <= i < a.len() implies segments_overlap(#[trigger] a[i], a[i]) by {
        match a[i] {
            SegView::Literal(_) => {},
            SegView::Param(_) => {},
        }
    }
}

/// A registered pattern cannot be registered again: once the last entry
/// holds the pattern, a new registration of it overlaps and is refused
/// (leaving the first handler in place).
pub proof fn lemma_duplicate_pattern_rejected(e: Seq<(Vec<Segment>, HandlerId)>, pattern: Seq<char>)
    requires
        e.len() > 0,
        entry_pattern(e.last()) == pattern_of(pattern),
    ensures
        overlaps_any(e, pattern_of(pattern)),
{
    lemma_pattern_overlaps_itself(pattern_of(pattern));
    assert(patterns_overlap(entry_pattern(e[e.len() - 1]), pattern_of(pattern)));
}

/// A segment text that both segments match, when they overlap.
pub open spec fn common_segment(a: SegView, b: SegView) -> Seq<char> {
    match (a, b) {
        (SegView::Literal(x), _) => x,
        (_, SegView::Literal(y)) => y,
        _ => seq!['x'],
    }
}

/// Two patterns overlap exactly when some sequence of path segments matches both.
pub proof fn lemma_overlap_iff_common_match(a: Seq<SegView>, b: Seq<SegView>)
    ensures
        patterns_overlap(a, b) <==> exists|segs: Seq<Seq<char>>|
            pattern_matches(a, segs) && pattern_matches(b, segs),
{
    if patterns_overlap(a, b) {
        let segs = Seq::new(a.len(), |i: int| common_segment(a[i], b[i]));
        assert forall|i: int| 0 <= i < a.len() implies segment_matches(#[trigger] a[i], segs[i])
            && segment_matches(b[i], segs[i]) by {
            assert(segments_overlap(a[i], b[i]));
        }
        assert(pattern_matches(a, segs) && pattern_matches(b, segs));
    }
    if exists|segs: Seq<Seq<char>>| pattern_matches(a, segs) && pattern_matches(b, segs) {
        let segs = choose|segs: Seq<Seq<char>>| pattern_matches(a, segs) && pattern_matches(b, segs);
        assert forall|i: int| 0 <= i < a.len() implies segments_overlap(#[trigger] a[i], b[i]) by {
            assert(segment_matches(a[i], segs[i]));
            assert(segment_matches(b[i], segs[i]));
        }
    }
}

proof fn lemma_first_match_at(e: Seq<(Vec<Segment>, HandlerId)>, segs: Seq<Seq<char>>, i: int, k: int)
    requires
        0 <= i <= k < e.len(),
        pattern_matches(entry_pattern(e[k]), segs),
        forall|j: int| i <= j < k ==> !pattern_matches(entry_pattern(#[trigger] e[j]), segs),
    ensures
        first_match_from(e, segs, i) == Some(k),
    decreases k - i,
{
    if i < k {
        lemma_first_match_at(e, segs, i + 1, k);
    }
}

/// Registration order does not matter: in a well-formed matcher, the
/// pattern that matches a path is the one that resolution picks.
pub proof fn lemma_match_is_unique(m: RouteMatcher, path: Seq<char>, k: int)
    requires
        m.wf(),
        0 <= k < m.entries@.len(),
        pattern_matches(entry_pattern(m.entries@[k]), path_segments(path)),
    ensures
        pattern_lookup(m.entries@, path) == Some(
            (
                m.entries@[k].1,
                captures(entry_pattern(m.entries@[k]), path_segments(path)),
            ),
        ),
{
    let e = m.entries@;
    let segs = path_segments(path);
    assert forall|j: int| 0 <= j < k implies !pattern_matches(entry_pattern(#[trigger] e[j]), segs) by {
        if pattern_matches(entry_pattern(e[j]), segs) {
            lemma_overlap_iff_common_match(entry_pattern(e[j]), entry_pattern(e[k]));
            assert(!patterns_overlap(entry_pattern(e[j]), entry_pattern(e[k])));
        }
    }
    lemma_first_match_at(e, segs, 0, k);
}

} // verus!
