//! Search results and the positions they are made of.
use vstd::prelude::*;
use std::ops::Range;
use crate::language_name::LanguageName;
use crate::pattern::{regex_matches, Pattern};
use crate::query_compiler::{HintModel, InjectionLanguageHint, LanguageInfo, ParentQuery};
use crate::range_union::{pushed_all, pushed_end, RangeUnion};
use crate::syntax::{self, included_range_accepted, language_attaches, parsed_tree_of, match_views, match_node_views, cap_spans, node_kind_id_of, node_prev_sibling_of, node_parent_of, NodeMatch, node_range_of, point_lt, point_min, query_matches_of, spans_of, range_within, tree_root_of, LanguageParser, MatchView};
use crate::text::{debug_quoted, debug_string, sorted_unique, str_from_utf8, string_views, strictly_increasing};
use vstd::string::StringExecFns;
use vstd::utf8::{decode_utf8, encode_utf8, valid_utf8};

verus! {

/// Why a file could not be parsed.
#[derive(Debug)]
pub enum FileParseError {
    UnknownLanguage,
    UnsupportedLanguage(String),
    /// The parser does not accept the language (probably a version mismatch).
    FailedToAttachLanguage {
        language_name: LanguageName,
        message: String,
    },
    UnreadableFile(String),
    EmptyStdin,
    InvalidFileRange {
        range: tree_sitter::Range,
        message: String,
    },
}

/// The definitions found in one file: their line ranges, the names they call
/// (for recursion), and where matching names were imported from.
pub struct SearchResult {
    pub ranges: RangeUnion,
    pub recurse_names: Vec<String>,
    pub import_origins: Vec<String>,
}

/// A fragment of a file written in another language.
pub struct InjectionRange {
    pub range: tree_sitter::Range,
    /// The fragment's language, if the file says it.
    pub language_hint: Option<String>,
    /// Lines of the enclosing file that give the fragment its context.
    pub context: RangeUnion,
}

/// The line just past a node that ends at `p`: a node ending at the start of a
/// line ends before that line.
pub open spec fn end_line(p: tree_sitter::Point) -> nat {
    if p.column == 0 { p.row as nat } else if p.row == usize::MAX { p.row as nat } else { p.row as nat + 1 }
}

pub fn end_point_to_end_line(p: tree_sitter::Point) -> (r: usize)
    ensures
        r == end_line(p),
{
    if p.column == 0 {
        p.row
    } else {
        p.row.saturating_add(1)
    }
}

/// The language of text read from memory. Detection from bytes is not
/// available in this build, so the language is always unknown.
pub fn detect_language_from_bytes(_bytes: &[u8]) -> (r: Result<LanguageName, FileParseError>)
    ensures
        r matches Err(FileParseError::UnknownLanguage),
{
    Err(FileParseError::UnknownLanguage)
}

/// A file's syntax tree, and the language it was parsed as.
pub struct ParsedFile {
    pub language_name: LanguageName,
    pub tree: tree_sitter::Tree,
}

impl ParsedFile {
    /// Parses the whole of `source_code` with the grammar `language`.
    pub fn from_bytes_and_language(
        source_code: &[u8],
        language_name: LanguageName,
        language: &tree_sitter::Language,
    ) -> (r: Result<Self, FileParseError>)
        ensures
            r is Ok <==> language_attaches(*language),
            r matches Ok(p) ==> p.language_name == language_name && p.tree == parsed_tree_of(*language, source_code@, None),
            r matches Err(e) ==> e matches FileParseError::FailedToAttachLanguage { language_name: l, .. }
                && l == language_name,
    {
        Self::from_bytes_and_language_ranged(source_code, language_name, language, None)
    }

    /// Parses `source_code` with the grammar `language`, only within `range` if one is given.
    /// It succeeds exactly where the grammar attaches and the range is accepted.
    pub fn from_bytes_and_language_ranged(
        source_code: &[u8],
        language_name: LanguageName,
        language: &tree_sitter::Language,
        range: Option<tree_sitter::Range>,
    ) -> (r: Result<Self, FileParseError>)
        ensures
            r is Ok <==> parse_succeeds(*language, range),
            r matches Ok(p) ==> p.language_name == language_name && p.tree == parsed_tree_of(*language, source_code@, range),
            r matches Err(e) ==> {
                ||| e matches FileParseError::FailedToAttachLanguage { language_name: l, .. } && l == language_name
                ||| e matches FileParseError::InvalidFileRange { range: rr, .. } && range == Some(rr)
            },
    {
        let mut parser = LanguageParser::new();
        match parser.set_language(language) {
            Ok(()) => {},
            Err(e) => {
                return Err(FileParseError::FailedToAttachLanguage {
                    language_name,
                    message: syntax::language_error_message(&e),
                });
            },
        }
        match range {
            Some(range) => match parser.set_included_range(range) {
                Ok(()) => {},
                Err(e) => {
                    return Err(FileParseError::InvalidFileRange {
                        range,
                        message: syntax::included_ranges_error_message(&e),
                    });
                },
            },
            None => {},
        }
        match parser.parse(source_code) {
            Some(tree) => Ok(ParsedFile { language_name, tree }),
            None => Err(FileParseError::FailedToAttachLanguage { language_name, message: String::new() }),
        }
    }
}

/// Whether parsing with the grammar `language`, within `range` if given, succeeds:
/// the grammar attaches and the range is accepted.
pub open spec fn parse_succeeds(language: tree_sitter::Language, range: Option<tree_sitter::Range>) -> bool {
    language_attaches(language) && (range matches Some(rr) ==> included_range_accepted(rr))
}

/// The bytes `start..end` of `source`, as text, if they lie within it and are UTF-8.
pub open spec fn byte_text(source: Seq<u8>, start: usize, end: usize) -> Option<Seq<u8>> {
    if start <= end <= source.len() && valid_utf8(source.subrange(start as int, end as int)) {
        Some(source.subrange(start as int, end as int))
    } else {
        None
    }
}

/// The text that `range` spans in `source`, if its bytes lie within `source` and are UTF-8.
pub open spec fn node_text_spec(source: Seq<u8>, range: tree_sitter::Range) -> Option<Seq<char>> {
    match byte_text(source, range.start_byte, range.end_byte) {
        Some(b) => Some(decode_utf8(b)),
        None => None,
    }
}

/// The text that a node spans in `source`, if its bytes lie within `source`
/// and are UTF-8.
pub fn node_text(source: &[u8], range: &tree_sitter::Range) -> (r: Option<String>)
    ensures
        r is Some <==> byte_text(source@, range.start_byte, range.end_byte) is Some,
        r matches Some(t) ==> byte_text(source@, range.start_byte, range.end_byte) == Some(encode_utf8(t@)),
        (match r {
            Some(t) => Some(t@),
            None => None,
        }) == node_text_spec(source@, *range),
{
    if range.start_byte <= range.end_byte && range.end_byte <= source.len() {
        let bytes = vstd::slice::slice_subrange(source, range.start_byte, range.end_byte);
        match str_from_utf8(bytes) {
            Some(s) => {
                proof { vstd::utf8::encode_utf8_decode_utf8(s@); }
                Some(String::from_str(s))
            },
            None => None,
        }
    } else {
        None
    }
}

/// What the searches read of a sibling just before a definition: its type and its lines.
#[derive(Clone, Copy)]
pub struct SiblingSpan {
    pub kind_id: u16,
    pub start_line: usize,
    pub end_line: usize,
}

/// Whether a sibling of this type belongs with the definition after it
/// (comments, decorators, attributes, template headers).
pub open spec fn is_context_kind(kind_id: u16, types: Seq<u16>) -> bool {
    kind_id != 0 && types.contains(kind_id)
}

/// The line ranges that the siblings before a definition add to it, given the
/// siblings nearest first, up to and including the first one of another type.
///
/// Each sibling of a context type is taken in whole, except the farthest one:
/// it may belong to whatever precedes it instead, so when the sibling before it
/// ends inside it, only the lines after that sibling's end are taken.
pub open spec fn sibling_context(spans: Seq<SiblingSpan>, types: Seq<u16>, last: Option<(usize, usize)>) -> Seq<(usize, usize)>
    decreases spans.len(),
{
    let pending = match last {
        Some(r) => seq![r],
        None => Seq::empty(),
    };
    if spans.len() == 0 {
        pending
    } else if is_context_kind(spans[0].kind_id, types) {
        pending + sibling_context(spans.drop_first(), types, Some((spans[0].start_line, spans[0].end_line)))
    } else {
        match last {
            Some(r) => if spans[0].end_line < r.1 {
                seq![(if spans[0].end_line > r.0 { spans[0].end_line } else { r.0 }, r.1)]
            } else {
                Seq::empty()
            },
            None => Seq::empty(),
        }
    }
}

/// The pairs `(start, end)` of a list of ranges.
pub open spec fn range_pairs(rs: Seq<Range<usize>>) -> Seq<(usize, usize)> {
    rs.map_values(|r: Range<usize>| (r.start, r.end))
}

proof fn lemma_range_pairs_push(rs: Seq<Range<usize>>, r: Range<usize>)
    ensures
        range_pairs(rs.push(r)) == range_pairs(rs).push((r.start, r.end)),
{
    assert(range_pairs(rs.push(r)) =~= range_pairs(rs).push((r.start, r.end)));
}

/// The line ranges that the siblings before a definition add to it (see [`sibling_context`]).
pub fn sibling_context_ranges(spans: &Vec<SiblingSpan>, types: &Vec<u16>) -> (r: Vec<Range<usize>>)
    ensures
        range_pairs(r@) == sibling_context(spans@, types@, None),
{
    let mut out: Vec<Range<usize>> = Vec::new();
    let mut last: Option<(usize, usize)> = None;
    let mut i: usize = 0;
    assert(spans@.skip(0) =~= spans@);
    assert(range_pairs(out@) =~= Seq::<(usize, usize)>::empty());
    while i < spans.len()
        invariant
            i <= spans@.len(),
            range_pairs(out@) + sibling_context(spans@.skip(i as int), types@, last)
                == sibling_context(spans@, types@, None),
        decreases spans@.len() - i,
    {
        let s = spans[i];
        let ghost rest = spans@.skip(i as int);
        let ghost before = range_pairs(out@);
        assert(rest[0] == s);
        assert(rest.drop_first() =~= spans@.skip(i + 1));
        if s.kind_id != 0 && contains_u16(types, s.kind_id) {
            match last {
                Some(r) => {
                    let ghost prev = out@;
                    out.push(r.0..r.1);
                    proof { lemma_range_pairs_push(prev, r.0..r.1); }
                    assert(range_pairs(out@) =~= before + seq![r]);
                },
                None => {
                    assert(range_pairs(out@) =~= before + Seq::<(usize, usize)>::empty());
                },
            }
            let ghost next = Some((s.start_line, s.end_line));
            assert(range_pairs(out@) + sibling_context(spans@.skip(i + 1), types@, next)
                =~= before + sibling_context(rest, types@, last));
            last = Some((s.start_line, s.end_line));
            i = i + 1;
        } else {
            match last {
                Some(r) => if s.end_line < r.1 {
                    let start = if s.end_line > r.0 { s.end_line } else { r.0 };
                    let ghost prev = out@;
                    out.push(start..r.1);
                    proof { lemma_range_pairs_push(prev, start..r.1); }
                    assert(range_pairs(out@) =~= before + sibling_context(rest, types@, last));
                } else {
                    assert(range_pairs(out@) =~= before + sibling_context(rest, types@, last));
                },
                None => {
                    assert(range_pairs(out@) =~= before + sibling_context(rest, types@, last));
                },
            }
            return out;
        }
    }
    let ghost before = range_pairs(out@);
    assert(spans@.skip(i as int) =~= Seq::<SiblingSpan>::empty());
    match last {
        Some(r) => {
            let ghost prev = out@;
            out.push(r.0..r.1);
            proof { lemma_range_pairs_push(prev, r.0..r.1); }
            assert(range_pairs(out@) =~= before + seq![r]);
        },
        None => {
            assert(range_pairs(out@) =~= before + Seq::<(usize, usize)>::empty());
        },
    }
    out
}

/// Whether `v` holds `x`.
pub fn contains_u16(v: &Vec<u16>, x: u16) -> (r: bool)
    ensures
        r == v@.contains(x),
{
    let mut i: usize = 0;
    while i < v.len()
        invariant
            i <= v@.len(),
            forall|j: int| 0 <= j < i ==> v@[j] != x,
        decreases v@.len() - i,
    {
        if v[i] == x {
            return true;
        }
        i = i + 1;
    }
    false
}

/// The earliest of `p` and the positions of `ps`, folded in order.
pub open spec fn earliest(p: tree_sitter::Point, ps: Seq<tree_sitter::Point>) -> tree_sitter::Point
    decreases ps.len(),
{
    if ps.len() == 0 {
        p
    } else {
        point_min(earliest(p, ps.drop_last()), ps.last())
    }
}

/// The header lines of an ancestor that the parent query matched: from its
/// first row to the end of the earliest of its own end and the ends of the
/// nodes just before its excluded parts.
pub open spec fn parent_header(r: tree_sitter::Range, excluded_ends: Seq<tree_sitter::Point>) -> (usize, usize) {
    (r.start_point.row, end_line(earliest(r.end_point, excluded_ends)) as usize)
}

/// The header lines of an ancestor (see [`parent_header`]).
pub fn parent_header_range(r: &tree_sitter::Range, excluded_ends: &Vec<tree_sitter::Point>) -> (out: Range<usize>)
    ensures
        (out.start, out.end) == parent_header(*r, excluded_ends@),
{
    let mut end = r.end_point;
    let mut i: usize = 0;
    while i < excluded_ends.len()
        invariant
            i <= excluded_ends@.len(),
            end == earliest(r.end_point, excluded_ends@.take(i as int)),
        decreases excluded_ends@.len() - i,
    {
        assert(excluded_ends@.take(i + 1).drop_last() =~= excluded_ends@.take(i as int));
        end = syntax::earlier_point(end, excluded_ends[i]);
        i = i + 1;
    }
    assert(excluded_ends@.take(i as int) =~= excluded_ends@);
    r.start_point.row..end_point_to_end_line(end)
}

/// A query match as plain values: which pattern matched, and for each capture
/// its index and the range of its node, in the order of the captures.
pub struct MatchSpans {
    pub pattern_index: usize,
    pub captures: Vec<(u32, tree_sitter::Range)>,
}

impl View for MatchSpans {
    type V = MatchView;

    open spec fn view(&self) -> MatchView {
        (self.pattern_index, self.captures@)
    }
}

/// The views of a list of matches.
pub open spec fn spans_views(ms: Seq<MatchSpans>) -> Seq<MatchView> {
    ms.map_values(|m: MatchSpans| m@)
}

/// The match as plain values: the ranges of the captured nodes.
fn match_spans(m: &syntax::QueryMatch) -> (r: MatchSpans)
    ensures
        r@ == (m.pattern_index, m.captures@.map_values(|c: syntax::Capture| (c.index, node_range_of(c.node)))),
{
    let mut captures: Vec<(u32, tree_sitter::Range)> = Vec::new();
    let mut i: usize = 0;
    while i < m.captures.len()
        invariant
            i <= m.captures@.len(),
            captures@ == m.captures@.take(i as int).map_values(|c: syntax::Capture| (c.index, node_range_of(c.node))),
        decreases m.captures@.len() - i,
    {
        captures.push((m.captures[i].index, syntax::node_range(&m.captures[i].node)));
        i = i + 1;
        assert(captures@ =~= m.captures@.take(i as int).map_values(|c: syntax::Capture| (c.index, node_range_of(c.node))));
    }
    assert(m.captures@.take(m.captures@.len() as int) =~= m.captures@);
    MatchSpans { pattern_index: m.pattern_index, captures }
}

/// Every match as plain values (see [`match_spans`]).
fn matches_spans(ms: &Vec<syntax::QueryMatch>) -> (r: Vec<MatchSpans>)
    ensures
        spans_views(r@) == match_views(ms@),
{
    let mut out: Vec<MatchSpans> = Vec::new();
    let mut i: usize = 0;
    while i < ms.len()
        invariant
            i <= ms@.len(),
            out@.len() == i,
            spans_views(out@) == match_views(ms@.take(i as int)),
        decreases ms@.len() - i,
    {
        let sp = match_spans(&ms[i]);
        let ghost before = out@;
        out.push(sp);
        assert forall|j: int| 0 <= j <= i implies #[trigger] spans_views(out@)[j] == match_views(ms@.take(i + 1))[j] by {
            if j < i {
                assert(out@[j] == before[j]);
                assert(spans_views(before)[j] == match_views(ms@.take(i as int))[j]);
            }
        }
        i = i + 1;
        assert(spans_views(out@) =~= match_views(ms@.take(i as int)));
    }
    assert(ms@.take(ms@.len() as int) =~= ms@);
    out
}

/// Whether a text passes the filter: every text passes no filter; a pattern
/// (its source and case flag) passes the texts it matches.
pub open spec fn passes(filter: Option<(Seq<char>, bool)>, t: Seq<char>) -> bool {
    match filter {
        None => true,
        Some(p) => regex_matches(p.0, p.1, t),
    }
}

/// The view of an optional pattern.
pub open spec fn filter_view(pattern: Option<&Pattern>) -> Option<(Seq<char>, bool)> {
    match pattern {
        Some(p) => Some(p@),
        None => None,
    }
}

/// The texts of the captures numbered `index`, in order, where they are UTF-8
/// and pass `filter`.
pub open spec fn capture_texts_of(
    source: Seq<u8>,
    caps: Seq<(u32, tree_sitter::Range)>,
    index: u32,
    filter: Option<(Seq<char>, bool)>,
) -> Seq<Seq<char>>
    decreases caps.len(),
{
    if caps.len() == 0 {
        Seq::empty()
    } else {
        let rest = capture_texts_of(source, caps.drop_last(), index, filter);
        let c = caps.last();
        match node_text_spec(source, c.1) {
            Some(t) => if c.0 == index && passes(filter, t) { rest.push(t) } else { rest },
            None => rest,
        }
    }
}

/// [`capture_texts_of`] over all the matches, one after the other.
pub open spec fn match_capture_texts(
    source: Seq<u8>,
    ms: Seq<MatchView>,
    index: u32,
    filter: Option<(Seq<char>, bool)>,
) -> Seq<Seq<char>>
    decreases ms.len(),
{
    if ms.len() == 0 {
        Seq::empty()
    } else {
        match_capture_texts(source, ms.drop_last(), index, filter) + capture_texts_of(source, ms.last().1, index, filter)
    }
}

proof fn lemma_string_views_push(v: Seq<String>, s: String)
    ensures
        string_views(v.push(s)) == string_views(v).push(s@),
{
    assert(string_views(v.push(s)) =~= string_views(v).push(s@));
}

/// Every text that a pattern filter lets through is matched by the pattern.
proof fn lemma_capture_texts_pass(source: Seq<u8>, caps: Seq<(u32, tree_sitter::Range)>, index: u32, filter: Option<(Seq<char>, bool)>)
    ensures
        forall|i: int| 0 <= i < capture_texts_of(source, caps, index, filter).len()
            ==> passes(filter, #[trigger] capture_texts_of(source, caps, index, filter)[i]),
    decreases caps.len(),
{
    if caps.len() > 0 {
        lemma_capture_texts_pass(source, caps.drop_last(), index, filter);
        let rest = capture_texts_of(source, caps.drop_last(), index, filter);
        let all = capture_texts_of(source, caps, index, filter);
        assert forall|i: int| 0 <= i < all.len() implies passes(filter, #[trigger] all[i]) by {
            if i < rest.len() {
                assert(all[i] == rest[i]);
            }
        }
    }
}

proof fn lemma_match_capture_texts_pass(source: Seq<u8>, ms: Seq<MatchView>, index: u32, filter: Option<(Seq<char>, bool)>)
    ensures
        forall|i: int| 0 <= i < match_capture_texts(source, ms, index, filter).len()
            ==> passes(filter, #[trigger] match_capture_texts(source, ms, index, filter)[i]),
    decreases ms.len(),
{
    if ms.len() > 0 {
        lemma_match_capture_texts_pass(source, ms.drop_last(), index, filter);
        lemma_capture_texts_pass(source, ms.last().1, index, filter);
        let a = match_capture_texts(source, ms.drop_last(), index, filter);
        let b = capture_texts_of(source, ms.last().1, index, filter);
        assert forall|i: int| 0 <= i < (a + b).len() implies passes(filter, #[trigger] (a + b)[i]) by {
            if i < a.len() {
                assert((a + b)[i] == a[i]);
            } else {
                assert((a + b)[i] == b[i - a.len()]);
            }
        }
    }
}

/// Appends to `out` the texts of the captures numbered `index` (see [`capture_texts_of`]).
fn push_texts_of_match(
    source: &[u8],
    caps: &Vec<(u32, tree_sitter::Range)>,
    index: u32,
    pattern: Option<&Pattern>,
    out: &mut Vec<String>,
)
    ensures
        string_views(final(out)@) == string_views(old(out)@) + capture_texts_of(source@, caps@, index, filter_view(pattern)),
{
    let ghost f = filter_view(pattern);
    let mut ci: usize = 0;
    assert(caps@.take(0) =~= Seq::<(u32, tree_sitter::Range)>::empty());
    assert(string_views(out@) =~= string_views(old(out)@) + Seq::<Seq<char>>::empty());
    while ci < caps.len()
        invariant
            ci <= caps@.len(),
            f == filter_view(pattern),
            string_views(out@) == string_views(old(out)@) + capture_texts_of(source@, caps@.take(ci as int), index, f),
        decreases caps@.len() - ci,
    {
        let ghost before = out@;
        assert(caps@.take(ci + 1).drop_last() =~= caps@.take(ci as int));
        assert(caps@.take(ci + 1).last() == caps@[ci as int]);
        let (cap_index, range) = caps[ci];
        let text = node_text(source, &range);
        match text {
            Some(t) => {
                let pass = match pattern {
                    Some(p) => p.is_match(t.as_str()),
                    None => true,
                };
                if cap_index == index && pass {
                    out.push(t);
                    proof {
                        lemma_string_views_push(before, out@.last());
                        assert(out@ == before.push(out@.last()));
                    }
                }
            },
            None => {},
        }
        ci = ci + 1;
    }
    assert(caps@.take(caps@.len() as int) =~= caps@);
}

/// Whether the match captured, under capture `index`, a text that `pattern` matches.
fn has_matching_capture(source: &[u8], m: &MatchSpans, index: u32, pattern: &Pattern) -> (r: bool)
    ensures
        r == (capture_texts_of(source@, m@.1, index, Some(pattern@)).len() > 0),
{
    let mut found: Vec<String> = Vec::new();
    push_texts_of_match(source, &m.captures, index, Some(pattern), &mut found);
    assert(string_views(found@).len() == found@.len());
    found.len() > 0
}

/// Appends to `out` the text of each capture `index` of each match, where it is UTF-8.
fn push_capture_texts(source: &[u8], matches: &Vec<MatchSpans>, index: u32, out: &mut Vec<String>)
    ensures
        string_views(final(out)@) == string_views(old(out)@) + match_capture_texts(source@, spans_views(matches@), index, None),
{
    let ghost ms = spans_views(matches@);
    let mut mi: usize = 0;
    assert(ms.take(0) =~= Seq::<MatchView>::empty());
    assert(string_views(out@) =~= string_views(old(out)@) + Seq::<Seq<char>>::empty());
    while mi < matches.len()
        invariant
            mi <= matches@.len(),
            ms == spans_views(matches@),
            string_views(out@) == string_views(old(out)@) + match_capture_texts(source@, ms.take(mi as int), index, None),
        decreases matches@.len() - mi,
    {
        assert(ms.take(mi + 1).drop_last() =~= ms.take(mi as int));
        assert(ms.take(mi + 1).last() == matches@[mi as int]@);
        push_texts_of_match(source, &matches[mi].captures, index, None, out);
        mi = mi + 1;
    }
    assert(ms.take(ms.len() as int) =~= ms);
}

/// Whether two lists hold the same strings, in whatever order and number.
pub open spec fn same_strings(a: Seq<Seq<char>>, b: Seq<Seq<char>>) -> bool {
    forall|s: Seq<char>| a.contains(s) <==> #[trigger] b.contains(s)
}

/// The names that `pattern` matches among the captures numbered `index` of the
/// matches, sorted and without repeats.
pub fn names_in_matches(source: &[u8], matches: &Vec<MatchSpans>, index: u32, pattern: &Pattern) -> (r: Vec<String>)
    ensures
        strictly_increasing(string_views(r@)),
        same_strings(string_views(r@), match_capture_texts(source@, spans_views(matches@), index, Some(pattern@))),
{
    let ghost ms = spans_views(matches@);
    let mut names: Vec<String> = Vec::new();
    let mut mi: usize = 0;
    assert(ms.take(0) =~= Seq::<MatchView>::empty());
    assert(string_views(names@) =~= Seq::<Seq<char>>::empty());
    while mi < matches.len()
        invariant
            mi <= matches@.len(),
            ms == spans_views(matches@),
            string_views(names@) == match_capture_texts(source@, ms.take(mi as int), index, Some(pattern@)),
        decreases matches@.len() - mi,
    {
        assert(ms.take(mi + 1).drop_last() =~= ms.take(mi as int));
        assert(ms.take(mi + 1).last() == matches@[mi as int]@);
        push_texts_of_match(source, &matches[mi].captures, index, Some(pattern), &mut names);
        mi = mi + 1;
    }
    assert(ms.take(ms.len() as int) =~= ms);
    sorted_unique(names)
}

/// The names that the definition query captures and `pattern` matches, sorted
/// and without repeats.
pub fn find_names(
    source_code: &[u8],
    tree: &tree_sitter::Tree,
    language_info: &LanguageInfo,
    pattern: &Pattern,
) -> (r: Vec<String>)
    ensures
        strictly_increasing(string_views(r@)),
        forall|i: int| 0 <= i < r@.len() ==> regex_matches(pattern@.0, pattern@.1, #[trigger] r@[i]@),
        range_within(node_range_of(tree_root_of(tree)), source_code@) ==> same_strings(
            string_views(r@),
            match_capture_texts(
                source_code@,
                spans_of(query_matches_of(language_info.definition_query.query, tree_root_of(tree), source_code@, None)),
                language_info.definition_query.index_name,
                Some(pattern@),
            ),
        ),
        !range_within(node_range_of(tree_root_of(tree)), source_code@) ==> r@.len() == 0,
        names_found(source_code@, tree, language_info, pattern@, r@),
{
    let query = &language_info.definition_query;
    let root = syntax::root_node(tree);
    let root_range = syntax::node_range(&root);
    if !(root_range.start_byte <= root_range.end_byte && root_range.end_byte <= source_code.len()) {
        return Vec::new();
    }
    let matches = syntax::query_matches(&query.query, root, source_code, None);
    let spans = matches_spans(&matches);
    let r = names_in_matches(source_code, &spans, query.index_name, pattern);
    proof {
        let ms = spans_views(spans@);
        let texts = match_capture_texts(source_code@, ms, query.index_name, Some(pattern@));
        lemma_match_capture_texts_pass(source_code@, ms, query.index_name, Some(pattern@));
        assert forall|i: int| 0 <= i < r@.len() implies regex_matches(pattern@.0, pattern@.1, #[trigger] r@[i]@) by {
            assert(string_views(r@)[i] == r@[i]@);
            assert(string_views(r@).contains(r@[i]@));
            assert(texts.contains(r@[i]@));
            let j = choose|j: int| 0 <= j < texts.len() && texts[j] == r@[i]@;
            assert(passes(Some(pattern@), texts[j]));
        }
    }
    r
}

/// What a definition's sibling before it is, as the searches read it.
pub open spec fn sibling_span_of(s: tree_sitter::Node) -> SiblingSpan {
    SiblingSpan {
        kind_id: node_kind_id_of(s),
        start_line: node_range_of(s).start_point.row,
        end_line: end_line(node_range_of(s).end_point) as usize,
    }
}

/// The siblings before `node`, nearest first, as long as each is of a context
/// type, and the first one that is not; at most `fuel` of them.
pub open spec fn sibling_walk(node: tree_sitter::Node, types: Seq<u16>, fuel: nat) -> Seq<SiblingSpan>
    decreases fuel,
{
    if fuel == 0 {
        Seq::empty()
    } else {
        match node_prev_sibling_of(node) {
            None => Seq::empty(),
            Some(s) => seq![sibling_span_of(s)] + if is_context_kind(node_kind_id_of(s), types) {
                sibling_walk(s, types, (fuel - 1) as nat)
            } else {
                Seq::empty()
            },
        }
    }
}

/// The farthest sibling before `node` that [`sibling_walk`] passes over (`node` itself if none).
pub open spec fn walk_end(node: tree_sitter::Node, types: Seq<u16>, fuel: nat) -> tree_sitter::Node
    decreases fuel,
{
    if fuel == 0 {
        node
    } else {
        match node_prev_sibling_of(node) {
            None => node,
            Some(s) => if is_context_kind(node_kind_id_of(s), types) { walk_end(s, types, (fuel - 1) as nat) } else { node },
        }
    }
}

/// Where the sibling before each captured node numbered `exclude` ends.
pub open spec fn capture_excluded_ends(caps: Seq<(u32, tree_sitter::Node)>, exclude: Option<u32>) -> Seq<tree_sitter::Point>
    decreases caps.len(),
{
    if caps.len() == 0 {
        Seq::empty()
    } else {
        let rest = capture_excluded_ends(caps.drop_last(), exclude);
        if exclude == Some(caps.last().0) {
            match node_prev_sibling_of(caps.last().1) {
                Some(p) => rest.push(node_range_of(p).end_point),
                None => rest,
            }
        } else {
            rest
        }
    }
}

/// [`capture_excluded_ends`] over all the matches, one after the other.
pub open spec fn excluded_ends_of(ms: Seq<NodeMatch>, exclude: Option<u32>) -> Seq<tree_sitter::Point>
    decreases ms.len(),
{
    if ms.len() == 0 {
        Seq::empty()
    } else {
        excluded_ends_of(ms.drop_last(), exclude) + capture_excluded_ends(ms.last().1, exclude)
    }
}

/// The header lines of the ancestors of `node` that the parent query matches
/// (matches starting at the ancestor itself), nearest first; at most `fuel`
/// ancestors, and none from the first one whose text `source` does not hold.
pub open spec fn header_walk(
    node: tree_sitter::Node,
    query: tree_sitter::Query,
    exclude: Option<u32>,
    source: Seq<u8>,
    fuel: nat,
) -> Seq<Range<usize>>
    decreases fuel,
{
    if fuel == 0 {
        Seq::empty()
    } else {
        match node_parent_of(node) {
            None => Seq::empty(),
            Some(p) => if !range_within(node_range_of(p), source) {
                Seq::empty()
            } else {
                let ms = query_matches_of(query, p, source, Some(0));
                let h = parent_header(node_range_of(p), excluded_ends_of(ms, exclude));
                (if ms.len() > 0 { seq![Range { start: h.0, end: h.1 }] } else { Seq::empty() })
                    + header_walk(p, query, exclude, source, (fuel - 1) as nat)
            },
        }
    }
}

/// Line ranges from their start and end lines.
pub open spec fn ranges_of_pairs(ps: Seq<(usize, usize)>) -> Seq<Range<usize>> {
    ps.map_values(|p: (usize, usize)| Range { start: p.0, end: p.1 })
}

/// The lines that give the definition `def` its context: those of the
/// siblings before it that belong with it, then a header of each ancestor
/// that the parent query matches.
pub open spec fn definition_context(def: tree_sitter::Node, info: &LanguageInfo, source: Seq<u8>) -> Seq<Range<usize>> {
    let types = info.sibling_node_types@;
    ranges_of_pairs(sibling_context(sibling_walk(def, types, usize::MAX as nat), types, None)) + match info.parent_query {
        Some(pq) => header_walk(walk_end(def, types, usize::MAX as nat), pq.query, pq.index_exclude, source, usize::MAX as nat),
        None => Seq::empty(),
    }
}

/// The lines `start..end` that a node's range spans: from its first row to [`end_line`] of its end.
pub open spec fn node_line_range(r: tree_sitter::Range) -> Range<usize> {
    r.start_point.row..(end_line(r.end_point) as usize)
}

proof fn lemma_pushed_all_append(m: Map<usize, usize>, a: Seq<Range<usize>>, b: Seq<Range<usize>>)
    ensures
        pushed_all(pushed_all(m, a), b) == pushed_all(m, a + b),
    decreases b.len(),
{
    if b.len() == 0 {
        assert(a + b =~= a);
    } else {
        lemma_pushed_all_append(m, a, b.drop_last());
        assert((a + b).drop_last() =~= a + b.drop_last());
        assert((a + b).last() == b.last());
    }
}

proof fn lemma_pushed_all_push(m: Map<usize, usize>, rs: Seq<Range<usize>>, r: Range<usize>)
    ensures
        pushed_all(m, rs.push(r)) == pushed_all(m, rs).insert(r.start, pushed_end(pushed_all(m, rs), r.start, r.end)),
{
    assert(rs.push(r).drop_last() =~= rs);
}

/// The siblings before `def_node` (see [`sibling_walk`]) and where the walk ended.
fn walk_siblings<'tree>(def_node: tree_sitter::Node<'tree>, types: &Vec<u16>) -> (r: (Vec<SiblingSpan>, tree_sitter::Node<'tree>))
    ensures
        r.0@ == sibling_walk(def_node, types@, usize::MAX as nat),
        r.1 == walk_end(def_node, types@, usize::MAX as nat),
{
    let mut node = def_node;
    let mut spans: Vec<SiblingSpan> = Vec::new();
    // a tree has fewer nodes than there are addresses, so no walk in it runs out of steps
    let mut steps: usize = 0;
    assert(spans@ + sibling_walk(node, types@, usize::MAX as nat) =~= sibling_walk(def_node, types@, usize::MAX as nat));
    loop
        invariant_except_break
            steps <= usize::MAX,
            sibling_walk(def_node, types@, usize::MAX as nat) == spans@ + sibling_walk(node, types@, (usize::MAX - steps) as nat),
            walk_end(def_node, types@, usize::MAX as nat) == walk_end(node, types@, (usize::MAX - steps) as nat),
        ensures
            sibling_walk(def_node, types@, usize::MAX as nat) == spans@,
            walk_end(def_node, types@, usize::MAX as nat) == node,
        decreases usize::MAX - steps,
    {
        if steps == usize::MAX {
            assert(spans@ + Seq::<SiblingSpan>::empty() =~= spans@);
            break;
        }
        let ghost fuel = (usize::MAX - steps) as nat;
        let sibling = match syntax::node_prev_sibling(&node) {
            Some(s) => s,
            None => {
                assert(spans@ + Seq::<SiblingSpan>::empty() =~= spans@);
                break;
            },
        };
        let r = syntax::node_range(&sibling);
        let kind_id = syntax::node_kind_id(&sibling);
        let ghost before = spans@;
        spans.push(SiblingSpan {
            kind_id,
            start_line: r.start_point.row,
            end_line: end_point_to_end_line(r.end_point),
        });
        assert(spans@ == before.push(sibling_span_of(sibling)));
        if kind_id != 0 && contains_u16(types, kind_id) {
            assert(before + (seq![sibling_span_of(sibling)] + sibling_walk(sibling, types@, (fuel - 1) as nat))
                =~= spans@ + sibling_walk(sibling, types@, (fuel - 1) as nat));
            node = sibling;
        } else {
            assert(!is_context_kind(node_kind_id_of(sibling), types@));
            assert(sibling_walk(node, types@, fuel) == seq![sibling_span_of(sibling)] + Seq::<SiblingSpan>::empty());
            assert(before + (seq![sibling_span_of(sibling)] + Seq::<SiblingSpan>::empty()) =~= spans@);
            break;
        }
        steps = steps + 1;
    }
    (spans, node)
}

/// Where the sibling before each captured node numbered `exclude` ends (see [`excluded_ends_of`]).
fn excluded_ends(matches: &Vec<syntax::QueryMatch>, exclude: Option<u32>) -> (r: Vec<tree_sitter::Point>)
    ensures
        r@ == excluded_ends_of(match_node_views(matches@), exclude),
{
    let ghost ms = match_node_views(matches@);
    let mut ends: Vec<tree_sitter::Point> = Vec::new();
    let mut mi: usize = 0;
    assert(ms.take(0) =~= Seq::<NodeMatch>::empty());
    while mi < matches.len()
        invariant
            mi <= matches@.len(),
            ms == match_node_views(matches@),
            ends@ == excluded_ends_of(ms.take(mi as int), exclude),
        decreases matches@.len() - mi,
    {
        let m = &matches[mi];
        let ghost caps = ms[mi as int].1;
        assert(caps == m.captures@.map_values(|c: syntax::Capture| (c.index, c.node)));
        assert(ms.take(mi + 1).drop_last() =~= ms.take(mi as int));
        assert(ms.take(mi + 1).last() == ms[mi as int]);
        let ghost base = ends@;
        let mut ci: usize = 0;
        assert(caps.take(0) =~= Seq::<(u32, tree_sitter::Node)>::empty());
        assert(ends@ =~= base + capture_excluded_ends(caps.take(0), exclude));
        while ci < m.captures.len()
            invariant
                ci <= m.captures@.len(),
                caps == m.captures@.map_values(|c: syntax::Capture| (c.index, c.node)),
                ends@ == base + capture_excluded_ends(caps.take(ci as int), exclude),
            decreases m.captures@.len() - ci,
        {
            assert(caps.take(ci + 1).drop_last() =~= caps.take(ci as int));
            assert(caps.take(ci + 1).last() == caps[ci as int]);
            if exclude == Some(m.captures[ci].index) {
                match syntax::node_prev_sibling(&m.captures[ci].node) {
                    Some(prev) => {
                        ends.push(syntax::node_range(&prev).end_point);
                    },
                    None => {},
                }
            }
            assert(ends@ =~= base + capture_excluded_ends(caps.take(ci + 1), exclude));
            ci = ci + 1;
        }
        assert(caps.take(caps.len() as int) =~= caps);
        mi = mi + 1;
    }
    assert(ms.take(ms.len() as int) =~= ms);
    ends
}

/// Pushes the header lines of the ancestors of `node` (see [`header_walk`]).
fn push_headers(ranges: &mut RangeUnion, start: tree_sitter::Node, parent_query: &ParentQuery, source_code: &[u8])
    ensures
        final(ranges)@ == pushed_all(
            old(ranges)@,
            header_walk(start, parent_query.query, parent_query.index_exclude, source_code@, usize::MAX as nat),
        ),
{
    let ghost base = ranges@;
    let ghost all = header_walk(start, parent_query.query, parent_query.index_exclude, source_code@, usize::MAX as nat);
    let ghost mut hs: Seq<Range<usize>> = Seq::empty();
    let mut node = start;
    let mut steps: usize = 0;
    assert(hs + all =~= all);
    loop
        invariant
            steps <= usize::MAX,
            all == header_walk(start, parent_query.query, parent_query.index_exclude, source_code@, usize::MAX as nat),
            all == hs + header_walk(node, parent_query.query, parent_query.index_exclude, source_code@, (usize::MAX - steps) as nat),
            ranges@ == pushed_all(base, hs),
        ensures
            ranges@ == pushed_all(base, all),
        decreases usize::MAX - steps,
    {
        if steps == usize::MAX {
            assert(hs + Seq::<Range<usize>>::empty() =~= hs);
            break;
        }
        let ghost fuel = (usize::MAX - steps) as nat;
        let parent = match syntax::node_parent(&node) {
            Some(p) => p,
            None => {
                assert(hs + Seq::<Range<usize>>::empty() =~= hs);
                break;
            },
        };
        let parent_range = syntax::node_range(&parent);
        if !(parent_range.start_byte <= parent_range.end_byte && parent_range.end_byte <= source_code.len()) {
            assert(hs + Seq::<Range<usize>>::empty() =~= hs);
            break;
        }
        let parent_matches = syntax::query_matches(&parent_query.query, parent, source_code, Some(0));
        let ends = excluded_ends(&parent_matches, parent_query.index_exclude);
        let ghost rest = header_walk(parent, parent_query.query, parent_query.index_exclude, source_code@, (fuel - 1) as nat);
        if parent_matches.len() > 0 {
            let h = parent_header_range(&parent_range, &ends);
            proof {
                lemma_pushed_all_push(base, hs, h);
                let ph = parent_header(node_range_of(parent), excluded_ends_of(query_matches_of(parent_query.query, parent, source_code@, Some(0)), parent_query.index_exclude));
                assert(h == Range { start: ph.0, end: ph.1 });
                assert(hs + (seq![h] + rest) =~= hs.push(h) + rest);
                hs = hs.push(h);
            }
            ranges.push(h);
        } else {
            assert(hs + (Seq::<Range<usize>>::empty() + rest) =~= hs + rest);
        }
        node = parent;
        steps = steps + 1;
    }
}

/// The lines of a definition's node, then of the siblings before it that
/// belong with it, then a header of each ancestor that the parent query matches.
fn push_definition_lines<'tree>(
    ranges: &mut RangeUnion,
    def_node: tree_sitter::Node<'tree>,
    source_code: &[u8],
    language_info: &LanguageInfo,
)
    ensures
        final(ranges)@ == pushed_all(
            pushed_all(old(ranges)@, seq![node_line_range(node_range_of(def_node))]),
            definition_context(def_node, language_info, source_code@),
        ),
{
    let def_range = syntax::node_range(&def_node);
    let ghost start_map = ranges@;
    ranges.push(def_range.start_point.row..end_point_to_end_line(def_range.end_point));
    proof {
        lemma_pushed_all_push(start_map, Seq::empty(), node_line_range(def_range));
        assert(Seq::<Range<usize>>::empty().push(node_line_range(def_range)) =~= seq![node_line_range(def_range)]);
    }
    let ghost first_map = ranges@;
    let (spans, node) = walk_siblings(def_node, &language_info.sibling_node_types);
    let ctx = sibling_context_ranges(&spans, &language_info.sibling_node_types);
    let ghost ctx_v = ctx@;
    proof {
        let ps = sibling_context(spans@, language_info.sibling_node_types@, None);
        assert forall|i: int| 0 <= i < ctx_v.len() implies #[trigger] ctx_v[i] == ranges_of_pairs(ps)[i] by {
            assert(range_pairs(ctx_v)[i] == ps[i]);
        }
        assert(ctx_v =~= ranges_of_pairs(ps));
    }
    ranges.extend(ctx);
    let ghost base = ranges@;
    match &language_info.parent_query {
        None => {
            assert(ctx_v + Seq::<Range<usize>>::empty() =~= ctx_v);
            proof { lemma_pushed_all_append(first_map, ctx_v, Seq::empty()); }
        },
        Some(parent_query) => {
            push_headers(ranges, node, parent_query, source_code);
            proof {
                lemma_pushed_all_append(
                    first_map,
                    ctx_v,
                    header_walk(node, parent_query.query, parent_query.index_exclude, source_code@, usize::MAX as nat),
                );
            }
        },
    }
}

/// The definition nodes (captures numbered `index`) among the captures, in order.
pub open spec fn captured_nodes(caps: Seq<(u32, tree_sitter::Node)>, index: u32) -> Seq<tree_sitter::Node>
    decreases caps.len(),
{
    if caps.len() == 0 {
        Seq::empty()
    } else {
        let rest = captured_nodes(caps.drop_last(), index);
        if caps.last().0 == index { rest.push(caps.last().1) } else { rest }
    }
}

/// The definitions (captures numbered `index_def`) of the matches that
/// captured, under `index_name`, a name the pattern matches.
pub open spec fn definition_nodes(
    source: Seq<u8>,
    ms: Seq<NodeMatch>,
    index_name: u32,
    index_def: u32,
    pattern: (Seq<char>, bool),
) -> Seq<tree_sitter::Node>
    decreases ms.len(),
{
    if ms.len() == 0 {
        Seq::empty()
    } else {
        let rest = definition_nodes(source, ms.drop_last(), index_name, index_def, pattern);
        if capture_texts_of(source, cap_spans(ms.last().1), index_name, Some(pattern)).len() > 0 {
            rest + captured_nodes(ms.last().1, index_def)
        } else {
            rest
        }
    }
}

/// The line ranges after pushing, for each definition in turn, its own lines
/// and then its context lines.
pub open spec fn lines_of_definitions(
    m: Map<usize, usize>,
    defs: Seq<tree_sitter::Node>,
    info: &LanguageInfo,
    source: Seq<u8>,
) -> Map<usize, usize>
    decreases defs.len(),
{
    if defs.len() == 0 {
        m
    } else {
        pushed_all(
            pushed_all(lines_of_definitions(m, defs.drop_last(), info, source), seq![node_line_range(node_range_of(defs.last()))]),
            definition_context(defs.last(), info, source),
        )
    }
}

/// The names that the recurse query captures (under `index_name`) inside each
/// definition whose text `source` holds, one definition after the other.
pub open spec fn called_names(source: Seq<u8>, defs: Seq<tree_sitter::Node>, query: tree_sitter::Query, index_name: u32) -> Seq<Seq<char>>
    decreases defs.len(),
{
    if defs.len() == 0 {
        Seq::empty()
    } else {
        let d = defs.last();
        called_names(source, defs.drop_last(), query, index_name) + if range_within(node_range_of(d), source) {
            match_capture_texts(source, spans_of(query_matches_of(query, d, source, None)), index_name, None)
        } else {
            Seq::empty()
        }
    }
}

/// The names to look up next for the definitions `defs`: with `recurse` and a
/// recurse query, those it captures inside them; else none.
pub open spec fn recursion_names(source: Seq<u8>, defs: Seq<tree_sitter::Node>, info: &LanguageInfo, recurse: bool) -> Seq<Seq<char>> {
    match info.recurse_query {
        Some(rq) => if recurse { called_names(source, defs, rq.query, rq.index_name) } else { Seq::empty() },
        None => Seq::empty(),
    }
}

/// The import origins: of each match of the import query that captured a name
/// the pattern matches, the texts of its `@origin` captures.
pub open spec fn import_texts(
    source: Seq<u8>,
    ms: Seq<MatchView>,
    index_name: u32,
    index_origin: u32,
    pattern: (Seq<char>, bool),
) -> Seq<Seq<char>>
    decreases ms.len(),
{
    if ms.len() == 0 {
        Seq::empty()
    } else {
        import_texts(source, ms.drop_last(), index_name, index_origin, pattern) + if capture_texts_of(
            source,
            ms.last().1,
            index_name,
            Some(pattern),
        ).len() > 0 {
            capture_texts_of(source, ms.last().1, index_origin, None)
        } else {
            Seq::empty()
        }
    }
}

/// The definitions that [`find_definition`] finds in `tree`: those of the
/// definition query's matches over the whole tree whose name `pattern` matches.
pub open spec fn definitions_in<'a>(
    source: Seq<u8>,
    tree: &'a tree_sitter::Tree,
    info: &LanguageInfo,
    pattern: (Seq<char>, bool),
) -> Seq<tree_sitter::Node<'a>> {
    definition_nodes(
        source,
        query_matches_of(info.definition_query.query, tree_root_of(tree), source, None),
        info.definition_query.index_name,
        info.definition_query.index_def,
        pattern,
    )
}

/// What [`find_names`] gives for `tree` and `source`: the names its definition
/// query captures that `pattern` matches, sorted and without repeats (none
/// where `source` does not hold the tree's text).
pub open spec fn names_found(
    source: Seq<u8>,
    tree: &tree_sitter::Tree,
    info: &LanguageInfo,
    pattern: (Seq<char>, bool),
    names: Seq<String>,
) -> bool {
    &&& strictly_increasing(string_views(names))
    &&& range_within(node_range_of(tree_root_of(tree)), source) ==> same_strings(
        string_views(names),
        match_capture_texts(
            source,
            spans_of(query_matches_of(info.definition_query.query, tree_root_of(tree), source, None)),
            info.definition_query.index_name,
            Some(pattern),
        ),
    )
    &&& !range_within(node_range_of(tree_root_of(tree)), source) ==> names.len() == 0
}

/// The lines that [`find_definition`] finds for `tree` and `source`: those of
/// each definition whose name `pattern` matches, with its context (none where
/// `source` does not hold the tree's text).
pub open spec fn definition_lines_found(
    source: Seq<u8>,
    tree: &tree_sitter::Tree,
    info: &LanguageInfo,
    pattern: (Seq<char>, bool),
    lines: Map<usize, usize>,
) -> bool {
    lines == if range_within(node_range_of(tree_root_of(tree)), source) {
        lines_of_definitions(Map::empty(), definitions_in(source, tree, info, pattern), info, source)
    } else {
        Map::empty()
    }
}

/// Finds the definitions whose name `pattern` matches: the lines of each, with
/// its context; the names they call, if `recurse`; and where matching names
/// were imported from. Nothing is found where `source_code` does not hold
/// the tree's text.
pub fn find_definition(
    source_code: &[u8],
    tree: &tree_sitter::Tree,
    language_info: &LanguageInfo,
    pattern: &Pattern,
    recurse: bool,
) -> (r: SearchResult)
    ensures
        definition_lines_found(source_code@, tree, language_info, pattern@, r.ranges@),
        strictly_increasing(string_views(r.recurse_names@)),
        range_within(node_range_of(tree_root_of(tree)), source_code@) ==> same_strings(
            string_views(r.recurse_names@),
            recursion_names(source_code@, definitions_in(source_code@, tree, language_info, pattern@), language_info, recurse),
        ),
        (!recurse || language_info.recurse_query is None || !range_within(node_range_of(tree_root_of(tree)), source_code@))
            ==> r.recurse_names@.len() == 0,
        string_views(r.import_origins@) == match language_info.import_query {
            Some(iq) => if range_within(node_range_of(tree_root_of(tree)), source_code@) {
                import_texts(
                    source_code@,
                    spans_of(query_matches_of(iq.query, tree_root_of(tree), source_code@, None)),
                    iq.index_name,
                    iq.index_origin,
                    pattern@,
                )
            } else {
                Seq::empty()
            },
            None => Seq::empty(),
        },
        language_info.import_query is None ==> r.import_origins@.len() == 0,
{
    let mut ranges = RangeUnion::default();
    let root = syntax::root_node(tree);
    let root_range = syntax::node_range(&root);
    if !(root_range.start_byte <= root_range.end_byte && root_range.end_byte <= source_code.len()) {
        let r = SearchResult { ranges, recurse_names: Vec::new(), import_origins: Vec::new() };
        assert(string_views(r.import_origins@) =~= Seq::<Seq<char>>::empty());
        assert(string_views(r.recurse_names@) =~= Seq::<Seq<char>>::empty());
        return r;
    }
    let mut recurse_names: Vec<String> = Vec::new();
    let query = &language_info.definition_query;
    let matches = syntax::query_matches(&query.query, root, source_code, None);
    let ghost nms = match_node_views(matches@);
    let ghost mut defs: Seq<tree_sitter::Node> = Seq::empty();
    let mut mi: usize = 0;
    assert(nms.take(0) =~= Seq::<NodeMatch>::empty());
    assert(string_views(recurse_names@) =~= recursion_names(source_code@, defs, language_info, recurse));
    while mi < matches.len()
        invariant
            mi <= matches@.len(),
            nms == match_node_views(matches@),
            defs == definition_nodes(source_code@, nms.take(mi as int), query.index_name, query.index_def, pattern@),
            ranges@ == lines_of_definitions(Map::empty(), defs, language_info, source_code@),
            string_views(recurse_names@) == recursion_names(source_code@, defs, language_info, recurse),
        decreases matches@.len() - mi,
    {
        let m = &matches[mi];
        let spans = match_spans(m);
        let ghost caps = nms[mi as int].1;
        assert(caps == m.captures@.map_values(|c: syntax::Capture| (c.index, c.node)));
        assert(spans@.1 =~= cap_spans(caps));
        assert(nms.take(mi + 1).drop_last() =~= nms.take(mi as int));
        assert(nms.take(mi + 1).last() == nms[mi as int]);
        if has_matching_capture(source_code, &spans, query.index_name, pattern) {
            let ghost defs0 = defs;
            let mut ci: usize = 0;
            assert(caps.take(0) =~= Seq::<(u32, tree_sitter::Node)>::empty());
            assert(defs =~= defs0 + captured_nodes(caps.take(0), query.index_def));
            while ci < m.captures.len()
                invariant
                    ci <= m.captures@.len(),
                    caps == m.captures@.map_values(|c: syntax::Capture| (c.index, c.node)),
                    defs == defs0 + captured_nodes(caps.take(ci as int), query.index_def),
                    ranges@ == lines_of_definitions(Map::empty(), defs, language_info, source_code@),
                    string_views(recurse_names@) == recursion_names(source_code@, defs, language_info, recurse),
                decreases m.captures@.len() - ci,
            {
                assert(caps.take(ci + 1).drop_last() =~= caps.take(ci as int));
                assert(caps.take(ci + 1).last() == caps[ci as int]);
                if m.captures[ci].index == query.index_def {
                    let node = m.captures[ci].node;
                    let def_range = syntax::node_range(&node);
                    let ghost names_before = string_views(recurse_names@);
                    let ghost new_defs = defs.push(node);
                    assert(new_defs.drop_last() =~= defs);
                    // find names to look up for recursion
                    if recurse && def_range.start_byte <= def_range.end_byte && def_range.end_byte <= source_code.len() {
                        match &language_info.recurse_query {
                            Some(recurse_query) => {
                                let recurse_matches = syntax::query_matches(&recurse_query.query, node, source_code, None);
                                push_capture_texts(
                                    source_code,
                                    &matches_spans(&recurse_matches),
                                    recurse_query.index_name,
                                    &mut recurse_names,
                                );
                            },
                            None => {},
                        }
                    } else {
                        match &language_info.recurse_query {
                            Some(rq) => {
                                assert(names_before + Seq::<Seq<char>>::empty() =~= names_before);
                            },
                            None => {},
                        }
                    }
                    assert(string_views(recurse_names@) == recursion_names(source_code@, new_defs, language_info, recurse));
                    push_definition_lines(&mut ranges, node, source_code, language_info);
                    proof {
                        defs = new_defs;
                    }
                }
                assert(defs =~= defs0 + captured_nodes(caps.take(ci + 1), query.index_def));
                ci = ci + 1;
            }
            assert(caps.take(caps.len() as int) =~= caps);
        }
        mi = mi + 1;
    }
    assert(nms.take(nms.len() as int) =~= nms);
    let mut import_origins: Vec<String> = Vec::new();
    match &language_info.import_query {
        None => {},
        Some(import_query) => {
            let import_matches = syntax::query_matches(&import_query.query, root, source_code, None);
            let spans = matches_spans(&import_matches);
            let ghost ims = spans_views(spans@);
            let mut mi: usize = 0;
            assert(ims.take(0) =~= Seq::<MatchView>::empty());
            assert(string_views(import_origins@) =~= Seq::<Seq<char>>::empty());
            while mi < spans.len()
                invariant
                    mi <= spans@.len(),
                    ims == spans_views(spans@),
                    string_views(import_origins@)
                        == import_texts(source_code@, ims.take(mi as int), import_query.index_name, import_query.index_origin, pattern@),
                decreases spans@.len() - mi,
            {
                assert(ims.take(mi + 1).drop_last() =~= ims.take(mi as int));
                assert(ims.take(mi + 1).last() == spans@[mi as int]@);
                let ghost before = string_views(import_origins@);
                if has_matching_capture(source_code, &spans[mi], import_query.index_name, pattern) {
                    push_texts_of_match(source_code, &spans[mi].captures, import_query.index_origin, None, &mut import_origins);
                } else {
                    assert(before + Seq::<Seq<char>>::empty() =~= before);
                }
                mi = mi + 1;
            }
            assert(ims.take(ims.len() as int) =~= ims);
        },
    }
    let recurse_names = sorted_unique(recurse_names);
    proof {
        assert(defs == definitions_in(source_code@, tree, language_info, pattern@));
    }
    let r = SearchResult { ranges, recurse_names, import_origins };
    assert(r.ranges@ == ranges@);
    proof {
        if !recurse || language_info.recurse_query is None {
            assert(recursion_names(source_code@, defs, language_info, recurse) =~= Seq::<Seq<char>>::empty());
            if r.recurse_names@.len() > 0 {
                assert(string_views(r.recurse_names@).contains(r.recurse_names@[0]@));
            }
        }
    }
    r
}

/// The language that an injection match names, if any: by the pattern's fixed
/// hint, or by the text of the capture that its hint points to.
pub open spec fn injection_hint(hints: Seq<HintModel>, pattern_index: int, texts: Seq<Option<Seq<char>>>) -> Option<Seq<char>> {
    if 0 <= pattern_index < hints.len() {
        match hints[pattern_index] {
            HintModel::Absent => None,
            HintModel::Fixed(s) => Some(s),
            HintModel::Capture(c) => if c < texts.len() { texts[c as int] } else { None },
        }
    } else {
        None
    }
}

/// The views of a list of optional strings.
pub open spec fn opt_texts(v: Seq<Option<String>>) -> Seq<Option<Seq<char>>> {
    v.map_values(|t: Option<String>| match t {
        Some(s) => Some(s@),
        None => None,
    })
}

/// The language that an injection match names (see [`injection_hint`]).
pub fn injection_language_hint(
    hints: &Vec<InjectionLanguageHint>,
    pattern_index: usize,
    texts: &Vec<Option<String>>,
) -> (r: Option<String>)
    ensures
        (match r {
            Some(s) => Some(s@),
            None => None,
        }) == injection_hint(hints@.map_values(|h: InjectionLanguageHint| h@), pattern_index as int, opt_texts(texts@)),
{
    if pattern_index < hints.len() {
        match &hints[pattern_index] {
            InjectionLanguageHint::Absent => None,
            InjectionLanguageHint::Fixed(s) => Some(s.clone()),
            InjectionLanguageHint::Capture(c) => {
                if *c < texts.len() {
                    match &texts[*c] {
                        Some(t) => Some(t.clone()),
                        None => None,
                    }
                } else {
                    None
                }
            },
        }
    } else {
        None
    }
}

/// Whether the text that `range` spans in `source` is UTF-8 and matched by the pattern.
pub open spec fn matched_text(source: Seq<u8>, pattern: (Seq<char>, bool), range: tree_sitter::Range) -> bool {
    exists|t: Seq<char>| byte_text(source, range.start_byte, range.end_byte) == Some(encode_utf8(t)) && #[trigger] regex_matches(pattern.0, pattern.1, t)
}

/// The injections at the captures numbered `index` whose text is UTF-8 and
/// matched by `pattern`, in order: each capture's range, with the match's `hint`.
pub open spec fn injections_of_captures(
    source: Seq<u8>,
    caps: Seq<(u32, tree_sitter::Range)>,
    index: u32,
    pattern: (Seq<char>, bool),
    hint: Option<Seq<char>>,
) -> Seq<(tree_sitter::Range, Option<Seq<char>>)>
    decreases caps.len(),
{
    if caps.len() == 0 {
        Seq::empty()
    } else {
        let rest = injections_of_captures(source, caps.drop_last(), index, pattern, hint);
        let c = caps.last();
        match node_text_spec(source, c.1) {
            Some(t) => if c.0 == index && regex_matches(pattern.0, pattern.1, t) { rest.push((c.1, hint)) } else { rest },
            None => rest,
        }
    }
}

/// The text of every capture, where it is UTF-8.
pub open spec fn all_capture_texts(source: Seq<u8>, caps: Seq<(u32, tree_sitter::Range)>) -> Seq<Option<Seq<char>>> {
    caps.map_values(|c: (u32, tree_sitter::Range)| node_text_spec(source, c.1))
}

/// The injections of all the matches, one match after the other; each match's
/// hint comes from its pattern (see [`injection_hint`]).
pub open spec fn injections_spec(
    source: Seq<u8>,
    ms: Seq<MatchView>,
    index: u32,
    hints: Seq<HintModel>,
    pattern: (Seq<char>, bool),
) -> Seq<(tree_sitter::Range, Option<Seq<char>>)>
    decreases ms.len(),
{
    if ms.len() == 0 {
        Seq::empty()
    } else {
        let m = ms.last();
        injections_spec(source, ms.drop_last(), index, hints, pattern) + injections_of_captures(
            source,
            m.1,
            index,
            pattern,
            injection_hint(hints, m.0 as int, all_capture_texts(source, m.1)),
        )
    }
}

/// What each pattern of an injection query says of the injected language.
pub open spec fn hint_views(hints: Seq<InjectionLanguageHint>) -> Seq<HintModel> {
    hints.map_values(|h: InjectionLanguageHint| h@)
}

/// The view of an optional string.
pub open spec fn opt_string_view(s: Option<String>) -> Option<Seq<char>> {
    match s {
        Some(t) => Some(t@),
        None => None,
    }
}

/// Each injection's range and language hint.
pub open spec fn injection_views(v: Seq<InjectionRange>) -> Seq<(tree_sitter::Range, Option<Seq<char>>)> {
    v.map_values(|i: InjectionRange| (i.range, opt_string_view(i.language_hint)))
}

/// The text of each capture of a match, where it is UTF-8.
fn capture_texts(source: &[u8], caps: &Vec<(u32, tree_sitter::Range)>) -> (r: Vec<Option<String>>)
    ensures
        opt_texts(r@) == all_capture_texts(source@, caps@),
{
    let mut texts: Vec<Option<String>> = Vec::new();
    let mut i: usize = 0;
    while i < caps.len()
        invariant
            i <= caps@.len(),
            texts@.len() == i,
            opt_texts(texts@) == all_capture_texts(source@, caps@.take(i as int)),
        decreases caps@.len() - i,
    {
        let t = node_text(source, &caps[i].1);
        let ghost before = texts@;
        let ghost tv = opt_string_view(t);
        texts.push(t);
        assert(opt_texts(before) =~= all_capture_texts(source@, caps@.take(i as int)));
        assert forall|j: int| 0 <= j <= i implies #[trigger] opt_texts(texts@)[j] == all_capture_texts(source@, caps@.take(i + 1))[j] by {
            if j < i {
                assert(texts@[j] == before[j]);
                assert(opt_texts(before)[j] == all_capture_texts(source@, caps@.take(i as int))[j]);
            } else {
                assert(opt_string_view(texts@[j]) == tv);
            }
        }
        assert(opt_texts(texts@) =~= all_capture_texts(source@, caps@.take(i + 1)));
        i = i + 1;
    }
    assert(caps@.take(caps@.len() as int) =~= caps@);
    texts
}

/// The fragments in other languages found by matches of an injection query:
/// each capture numbered `index` whose text `pattern` matches, with the
/// language its match names, if any, and no context yet.
pub fn injections_in_matches(
    source: &[u8],
    matches: &Vec<MatchSpans>,
    index: u32,
    hints: &Vec<InjectionLanguageHint>,
    pattern: &Pattern,
) -> (r: Vec<InjectionRange>)
    ensures
        injection_views(r@) == injections_spec(source@, spans_views(matches@), index, hint_views(hints@), pattern@),
        forall|i: int| 0 <= i < r@.len() ==> (#[trigger] r@[i]).context@ == Map::<usize, usize>::empty(),
        forall|i: int| 0 <= i < r@.len() ==> matched_text(source@, pattern@, (#[trigger] r@[i]).range),
{
    let ghost hv = hints@.map_values(|h: InjectionLanguageHint| h@);
    let ghost ms = spans_views(matches@);
    let mut injections: Vec<InjectionRange> = Vec::new();
    let mut mi: usize = 0;
    assert(ms.take(0) =~= Seq::<MatchView>::empty());
    assert(injection_views(injections@) =~= Seq::<(tree_sitter::Range, Option<Seq<char>>)>::empty());
    while mi < matches.len()
        invariant
            mi <= matches@.len(),
            hv == hints@.map_values(|h: InjectionLanguageHint| h@),
            ms == spans_views(matches@),
            injection_views(injections@) == injections_spec(source@, ms.take(mi as int), index, hv, pattern@),
            forall|i: int| 0 <= i < injections@.len() ==> (#[trigger] injections@[i]).context@ == Map::<usize, usize>::empty(),
            forall|i: int| 0 <= i < injections@.len() ==> matched_text(source@, pattern@, (#[trigger] injections@[i]).range),
        decreases matches@.len() - mi,
    {
        let m = &matches[mi];
        assert(ms.take(mi + 1).drop_last() =~= ms.take(mi as int));
        assert(ms.take(mi + 1).last() == matches@[mi as int]@);
        let texts = capture_texts(source, &m.captures);
        let hint = injection_language_hint(hints, m.pattern_index, &texts);
        let ghost hint_v = opt_string_view(hint);
        assert(hint_v == injection_hint(hv, m.pattern_index as int, all_capture_texts(source@, m.captures@)));
        let ghost base = injection_views(injections@);
        let mut ci: usize = 0;
        assert(m.captures@.take(0) =~= Seq::<(u32, tree_sitter::Range)>::empty());
        assert(injection_views(injections@) =~= base + Seq::<(tree_sitter::Range, Option<Seq<char>>)>::empty());
        while ci < m.captures.len()
            invariant
                ci <= m.captures@.len(),
                m == &matches@[mi as int],
                injection_views(injections@) == base + injections_of_captures(source@, m.captures@.take(ci as int), index, pattern@, hint_v),
                hint_v == opt_string_view(hint),
                forall|i: int| 0 <= i < injections@.len() ==> (#[trigger] injections@[i]).context@ == Map::<usize, usize>::empty(),
                forall|i: int| 0 <= i < injections@.len() ==> matched_text(source@, pattern@, (#[trigger] injections@[i]).range),
            decreases m.captures@.len() - ci,
        {
            assert(m.captures@.take(ci + 1).drop_last() =~= m.captures@.take(ci as int));
            assert(m.captures@.take(ci + 1).last() == m.captures@[ci as int]);
            let (cap_index, range) = m.captures[ci];
            match node_text(source, &range) {
                Some(text) => {
                    if cap_index == index && pattern.is_match(text.as_str()) {
                        let language_hint = match &hint {
                            Some(h) => Some(h.clone()),
                            None => None,
                        };
                        let ghost before = injections@;
                        let inj = InjectionRange { range, language_hint, context: RangeUnion::default() };
                        assert(matched_text(source@, pattern@, inj.range));
                        injections.push(inj);
                        assert(injection_views(injections@) =~= injection_views(before).push((range, hint_v)));
                    }
                },
                None => {},
            }
            ci = ci + 1;
        }
        assert(m.captures@.take(m.captures@.len() as int) =~= m.captures@);
        mi = mi + 1;
    }
    assert(ms.take(ms.len() as int) =~= ms);
    injections
}

/// What [`find_injections`] finds in `tree` and `source`: the ranges and hints
/// that [`injections_spec`] gives for the matches of the injection query over
/// the whole tree (none without an injection query, or where `source` does not
/// hold the tree's text).
pub open spec fn injections_found(
    source: Seq<u8>,
    tree: &tree_sitter::Tree,
    info: &LanguageInfo,
    pattern: (Seq<char>, bool),
    views: Seq<(tree_sitter::Range, Option<Seq<char>>)>,
) -> bool {
    match info.injection_query {
        None => views.len() == 0,
        Some(q) => if range_within(node_range_of(tree_root_of(tree)), source) {
            views == injections_spec(
                source,
                spans_of(query_matches_of(q.query, tree_root_of(tree), source, None)),
                q.index_range,
                hint_views(q.language_hints_by_pattern_index@),
                pattern,
            )
        } else {
            views.len() == 0
        },
    }
}

/// The fragments in other languages whose text `pattern` matches, each with
/// the language its match names, if any, and no context yet: what
/// [`injections_in_matches`] finds in the matches of the injection query over
/// the whole tree (none where `source_code` does not hold the tree's text).
pub fn find_injections(
    source_code: &[u8],
    tree: &tree_sitter::Tree,
    language_info: &LanguageInfo,
    pattern: &Pattern,
) -> (r: Vec<InjectionRange>)
    ensures
        injections_found(source_code@, tree, language_info, pattern@, injection_views(r@)),
        language_info.injection_query is None ==> r@.len() == 0,
        !range_within(node_range_of(tree_root_of(tree)), source_code@) ==> r@.len() == 0,
        language_info.injection_query matches Some(q) ==> (range_within(node_range_of(tree_root_of(tree)), source_code@)
            ==> injection_views(r@) == injections_spec(
                source_code@,
                spans_of(query_matches_of(q.query, tree_root_of(tree), source_code@, None)),
                q.index_range,
                hint_views(q.language_hints_by_pattern_index@),
                pattern@,
            )),
        forall|i: int| 0 <= i < r@.len() ==> (#[trigger] r@[i]).context@ == Map::<usize, usize>::empty(),
        forall|i: int| 0 <= i < r@.len() ==> matched_text(source_code@, pattern@, (#[trigger] r@[i]).range),
{
    match &language_info.injection_query {
        None => Vec::new(),
        Some(injection_query) => {
            let root = syntax::root_node(tree);
            let root_range = syntax::node_range(&root);
            if !(root_range.start_byte <= root_range.end_byte && root_range.end_byte <= source_code.len()) {
                return Vec::new();
            }
            let matches = syntax::query_matches(&injection_query.query, root, source_code, None);
            let spans = matches_spans(&matches);
            injections_in_matches(
                source_code,
                &spans,
                injection_query.index_range,
                &injection_query.language_hints_by_pattern_index,
                pattern,
            )
        },
    }
}

/// `format!("{:?}", range)`: a range as `Debug` shows it.
#[verifier::external_body]
fn range_debug(range: &tree_sitter::Range) -> String {
    format!("{:?}", range)
}

impl FileParseError {
    /// Whether `text` is the message for this error; `shown` stands for how a
    /// tree-sitter range prints.
    pub open spec fn describes(&self, text: Seq<char>) -> bool {
        match self {
            FileParseError::UnknownLanguage => text == "unknown language"@,
            FileParseError::UnsupportedLanguage(l) => text == "unsupported language "@ + debug_quoted(l@),
            FileParseError::FailedToAttachLanguage { language_name, message } =>
                text == "language LanguageName("@ + debug_quoted(language_name@) + ") incompatible with parser: "@
                    + debug_quoted(message@),
            FileParseError::UnreadableFile(m) => text == m@,
            FileParseError::EmptyStdin => text == "stdin is empty"@,
            FileParseError::InvalidFileRange { message, .. } => exists|shown: Seq<char>|
                text == "tree_sitter rejected range restriction "@ + shown + ": "@ + message@,
        }
    }

    /// The message that tells a user what went wrong.
    pub fn describe(&self) -> (r: String)
        ensures
            self.describes(r@),
    {
        proof {
            reveal_strlit("unknown language");
            reveal_strlit("unsupported language ");
            reveal_strlit("language LanguageName(");
            reveal_strlit(") incompatible with parser: ");
            reveal_strlit("stdin is empty");
            reveal_strlit("tree_sitter rejected range restriction ");
            reveal_strlit(": ");
        }
        match self {
            FileParseError::UnknownLanguage => String::from_str("unknown language"),
            FileParseError::UnsupportedLanguage(l) =>
                String::from_str("unsupported language ").concat(debug_string(l.as_str()).as_str()),
            FileParseError::FailedToAttachLanguage { language_name, message } =>
                String::from_str("language LanguageName(")
                    .concat(debug_string(language_name.as_str()).as_str())
                    .concat(") incompatible with parser: ")
                    .concat(debug_string(message.as_str()).as_str()),
            FileParseError::UnreadableFile(m) => m.clone(),
            FileParseError::EmptyStdin => String::from_str("stdin is empty"),
            FileParseError::InvalidFileRange { range, message } => {
                let shown = range_debug(range);
                let r = String::from_str("tree_sitter rejected range restriction ")
                    .concat(shown.as_str())
                    .concat(": ")
                    .concat(message.as_str());
                assert(r@ == "tree_sitter rejected range restriction "@ + shown@ + ": "@ + message@);
                r
            },
        }
    }
}

} // verus!
