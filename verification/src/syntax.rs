//! The parts of tree-sitter that the searches use: parsers, syntax trees and queries.
//!
//! Trees and queries are opaque here. What the searches read of them comes out
//! of the functions below as plain values.
use vstd::prelude::*;
use tree_sitter::StreamingIterator;

verus! {

#[verifier::external_type_specification]
pub struct ExPoint(tree_sitter::Point);

#[verifier::external_type_specification]
pub struct ExRange(tree_sitter::Range);

#[verifier::external_type_specification]
#[verifier::external_body]
pub struct ExLanguage(tree_sitter::Language);

#[verifier::external_type_specification]
#[verifier::external_body]
pub struct ExParser(tree_sitter::Parser);

#[verifier::external_type_specification]
#[verifier::external_body]
pub struct ExTree(tree_sitter::Tree);

#[verifier::external_type_specification]
#[verifier::external_body]
pub struct ExNode<'tree>(tree_sitter::Node<'tree>);

#[verifier::external_type_specification]
#[verifier::external_body]
pub struct ExQuery(tree_sitter::Query);

#[verifier::external_type_specification]
#[verifier::external_body]
pub struct ExQueryError(tree_sitter::QueryError);

#[verifier::external_type_specification]
#[verifier::external_body]
pub struct ExLanguageError(tree_sitter::LanguageError);

#[verifier::external_type_specification]
#[verifier::external_body]
pub struct ExIncludedRangesError(tree_sitter::IncludedRangesError);

/// Whether position `a` comes before position `b` (by row, then column), as
/// `Point`'s derived order has it.
pub open spec fn point_lt(a: tree_sitter::Point, b: tree_sitter::Point) -> bool {
    a.row < b.row || (a.row == b.row && a.column < b.column)
}

/// The earlier of two positions.
pub open spec fn point_min(a: tree_sitter::Point, b: tree_sitter::Point) -> tree_sitter::Point {
    if point_lt(b, a) { b } else { a }
}

/// The earlier of two positions (what `Ord::min` gives for `Point`).
pub fn earlier_point(a: tree_sitter::Point, b: tree_sitter::Point) -> (r: tree_sitter::Point)
    ensures
        r == point_min(a, b),
{
    if b.row < a.row || (b.row == a.row && b.column < a.column) {
        b
    } else {
        a
    }
}

// ---------------------------------------------------------------- parsing

/// A tree-sitter parser, together with whether a language has been attached to it.
pub struct LanguageParser {
    parser: tree_sitter::Parser,
    has_language: Ghost<bool>,
    language: Ghost<Option<tree_sitter::Language>>,
    included: Ghost<Option<tree_sitter::Range>>,
}

/// The ABI version of a grammar (`tree_sitter::Language::abi_version`): that
/// of the tree-sitter CLI that generated it.
pub uninterp spec fn language_abi_version_of(language: tree_sitter::Language) -> usize;

/// Whether `tree_sitter::Parser::set_language` accepts a grammar: exactly when
/// this tree-sitter reads its ABI version.
pub open spec fn language_attaches(language: tree_sitter::Language) -> bool {
    crate::loader::abi_supported(language_abi_version_of(language))
}

/// Whether `tree_sitter::Parser::set_included_ranges` accepts the one range
/// `range`: exactly when it does not end before it starts, the two byte
/// offsets taken, as the C library takes them, modulo 2^32.
pub open spec fn included_range_accepted(range: tree_sitter::Range) -> bool {
    (range.start_byte as int) % 0x1_0000_0000int <= (range.end_byte as int) % 0x1_0000_0000int
}

/// The tree that `tree_sitter::Parser::parse` gives for `source` with the
/// grammar `language`, parsing only within `included` if it is given.
pub uninterp spec fn parsed_tree_of(language: tree_sitter::Language, source: Seq<u8>, included: Option<tree_sitter::Range>) -> tree_sitter::Tree;

impl LanguageParser {
    /// Whether a language has been attached, so that parsing gives a tree.
    pub closed spec fn ready(&self) -> bool {
        self.has_language@
    }

    /// The grammar attached, if any.
    pub closed spec fn attached(&self) -> Option<tree_sitter::Language> {
        self.language@
    }

    /// The range that parsing is restricted to, if any.
    pub closed spec fn included_range(&self) -> Option<tree_sitter::Range> {
        self.included@
    }

    /// `tree_sitter::Parser::new`: a parser with no language attached.
    #[verifier::external_body]
    pub(crate) fn new() -> (r: Self)
        ensures
            !r.ready(),
            r.attached() is None,
            r.included_range() is None,
    {
        LanguageParser { parser: tree_sitter::Parser::new(), has_language: Ghost(false), language: Ghost(None), included: Ghost(None) }
    }

    /// `tree_sitter::Parser::set_language`: attaches `language`, unless its ABI
    /// version (named by [`language_abi_version_of`]) is one this tree-sitter
    /// cannot read (see [`language_attaches`]). The parser is ready after a
    /// success, and as it was after a failure.
    #[verifier::external_body]
    pub(crate) fn set_language(&mut self, language: &tree_sitter::Language) -> (r: Result<
        (),
        tree_sitter::LanguageError,
    >)
        ensures
            r is Ok <==> crate::loader::abi_supported(language_abi_version_of(*language)),
            r is Ok ==> final(self).ready() && final(self).attached() == Some(*language),
            r is Err ==> final(self).ready() == old(self).ready() && final(self).attached() == old(self).attached(),
            final(self).included_range() == old(self).included_range(),
    {
        self.parser.set_language(language)
    }

    /// `tree_sitter::Parser::set_included_ranges` with the one range `range`:
    /// restricts parsing to it where it is accepted (see
    /// [`included_range_accepted`]). The attached language stays as it was.
    #[verifier::external_body]
    pub(crate) fn set_included_range(&mut self, range: tree_sitter::Range) -> (r: Result<
        (),
        tree_sitter::IncludedRangesError,
    >)
        ensures
            r is Ok <==> included_range_accepted(range),
            r is Ok ==> final(self).included_range() == Some(range),
            final(self).ready() == old(self).ready(),
            final(self).attached() == old(self).attached(),
    {
        self.parser.set_included_ranges(&[range])
    }

    /// `tree_sitter::Parser::parse`: the syntax tree of `source` (named by
    /// [`parsed_tree_of`]). The parser gives no tree only when no language is
    /// attached (this library sets no timeout and no cancellation flag), so a
    /// ready parser always gives one.
    #[verifier::external_body]
    pub(crate) fn parse(&mut self, source: &[u8]) -> (r: Option<tree_sitter::Tree>)
        requires
            old(self).ready(),
            old(self).attached() is Some,
        ensures
            r == Some(parsed_tree_of(old(self).attached()->Some_0, source@, old(self).included_range())),
            final(self).ready(),
    {
        self.parser.parse(source, None)
    }
}

// ---------------------------------------------------------------- syntax trees

/// The root node of a tree (`tree_sitter::Tree::root_node`).
pub uninterp spec fn tree_root_of(tree: &tree_sitter::Tree) -> tree_sitter::Node<'_>;

/// Where a node lies (`tree_sitter::Node::range`).
pub uninterp spec fn node_range_of(node: tree_sitter::Node) -> tree_sitter::Range;

/// `tree_sitter::Tree::root_node`; the node is named by [`tree_root_of`].
#[verifier::external_body]
pub(crate) fn root_node<'tree>(tree: &'tree tree_sitter::Tree) -> (r: tree_sitter::Node<'tree>)
    ensures
        r == tree_root_of(tree),
{
    tree.root_node()
}

/// `tree_sitter::Node::range`: where the node lies, in bytes and in rows and
/// columns; named by [`node_range_of`].
#[verifier::external_body]
pub(crate) fn node_range(node: &tree_sitter::Node) -> (r: tree_sitter::Range)
    ensures
        r == node_range_of(*node),
{
    node.range()
}

/// The number of a node's type in its grammar (`tree_sitter::Node::kind_id`).
pub uninterp spec fn node_kind_id_of(node: tree_sitter::Node) -> u16;

/// The sibling just before a node, if any (`tree_sitter::Node::prev_sibling`).
pub uninterp spec fn node_prev_sibling_of(node: tree_sitter::Node) -> Option<tree_sitter::Node>;

/// The parent of a node, if any (`tree_sitter::Node::parent`).
pub uninterp spec fn node_parent_of(node: tree_sitter::Node) -> Option<tree_sitter::Node>;

/// `tree_sitter::Node::kind_id`: the number of the node's type in its grammar;
/// named by [`node_kind_id_of`].
#[verifier::external_body]
pub(crate) fn node_kind_id(node: &tree_sitter::Node) -> (r: u16)
    ensures
        r == node_kind_id_of(*node),
{
    node.kind_id()
}

/// `tree_sitter::Node::prev_sibling`; named by [`node_prev_sibling_of`].
#[verifier::external_body]
pub(crate) fn node_prev_sibling<'tree>(node: &tree_sitter::Node<'tree>) -> (r: Option<tree_sitter::Node<'tree>>)
    ensures
        r == node_prev_sibling_of(*node),
{
    node.prev_sibling()
}

/// `tree_sitter::Node::parent`; named by [`node_parent_of`].
#[verifier::external_body]
pub(crate) fn node_parent<'tree>(node: &tree_sitter::Node<'tree>) -> (r: Option<tree_sitter::Node<'tree>>)
    ensures
        r == node_parent_of(*node),
{
    node.parent()
}

/// The number that a grammar gives the named node type `kind`, or 0 if it has
/// none (`tree_sitter::Language::id_for_node_kind` for named nodes).
pub uninterp spec fn named_kind_id_of(language: tree_sitter::Language, kind: Seq<char>) -> u16;

/// `tree_sitter::Language::id_for_node_kind` for named nodes: the number of the
/// named node type of this name, or 0 if the grammar has none; named by [`named_kind_id_of`].
#[verifier::external_body]
pub(crate) fn named_node_kind_id(language: &tree_sitter::Language, kind: &str) -> (r: u16)
    ensures
        r == named_kind_id_of(*language, kind@),
{
    language.id_for_node_kind(kind, true)
}

// ---------------------------------------------------------------- queries

/// A property that a query pattern sets with `#set!`, as plain values: its key,
/// its value if it has one, and the capture it names if it names one.
pub type PropertyView = (Seq<char>, Option<Seq<char>>, Option<usize>);

/// The properties that each pattern of a compiled query sets, pattern by pattern.
pub uninterp spec fn query_property_settings(query: tree_sitter::Query) -> Seq<Seq<PropertyView>>;

/// The names of a compiled query's captures, in the order of their indices.
pub uninterp spec fn query_capture_names(query: tree_sitter::Query) -> Seq<Seq<char>>;

/// The index of the first capture called `name`, if there is one.
pub open spec fn first_index_of(names: Seq<Seq<char>>, name: Seq<char>) -> Option<nat> {
    if exists|i: int| 0 <= i < names.len() && names[i] == name {
        let i = choose|i: int|
            0 <= i < names.len() && names[i] == name && forall|j: int| 0 <= j < i ==> names[j] != name;
        Some(i as nat)
    } else {
        None
    }
}

/// A property that a query pattern sets.
pub struct PropertySetting {
    pub key: String,
    pub value: Option<String>,
    pub capture_id: Option<usize>,
}

impl View for PropertySetting {
    type V = PropertyView;

    open spec fn view(&self) -> PropertyView {
        (self.key@, match self.value {
            Some(v) => Some(v@),
            None => None,
        }, self.capture_id)
    }
}

/// The query that `tree_sitter::Query::new` compiles from `source` against the
/// grammar `language`, or `None` where it refuses `source`.
pub uninterp spec fn query_compiled(language: tree_sitter::Language, source: Seq<char>) -> Option<tree_sitter::Query>;

/// `tree_sitter::Query::new`: compiles `source` against the grammar `language`;
/// the outcome is named by [`query_compiled`].
#[verifier::external_body]
pub(crate) fn compile_query(language: &tree_sitter::Language, source: &str) -> (r: Result<
    tree_sitter::Query,
    tree_sitter::QueryError,
>)
    ensures
        r is Ok <==> query_compiled(*language, source@) is Some,
        r matches Ok(q) ==> query_compiled(*language, source@) == Some(q),
{
    tree_sitter::Query::new(language, source)
}

/// `<tree_sitter::QueryError as Display>::fmt`: what went wrong, and where.
#[verifier::external_body]
pub(crate) fn query_error_message(error: &tree_sitter::QueryError) -> String {
    format!("{}", error)
}

/// `tree_sitter::Query::capture_index_for_name`: the index of the first capture
/// called `name`. (Indices are below 2^32: the C library counts captures in 32 bits.)
#[verifier::external_body]
pub(crate) fn capture_index_for_name(query: &tree_sitter::Query, name: &str) -> (r: Option<u32>)
    ensures
        r is None <==> first_index_of(query_capture_names(*query), name@) is None,
        r matches Some(i) ==> first_index_of(query_capture_names(*query), name@) == Some(i as nat),
{
    query.capture_index_for_name(name)
}

/// `tree_sitter::Query::pattern_count`: one setting list per pattern.
#[verifier::external_body]
pub(crate) fn pattern_count(query: &tree_sitter::Query) -> (r: usize)
    ensures
        r == query_property_settings(*query).len(),
{
    query.pattern_count()
}

/// `tree_sitter::Query::property_settings`: the properties that pattern
/// `pattern_index` sets, in the order the query writes them.
#[verifier::external_body]
pub(crate) fn property_settings(query: &tree_sitter::Query, pattern_index: usize) -> (r: Vec<PropertySetting>)
    requires
        pattern_index < query_property_settings(*query).len(),
    ensures
        r@.map_values(|p: PropertySetting| p@) == query_property_settings(*query)[pattern_index as int],
{
    query.property_settings(pattern_index).iter().map(|p| PropertySetting {
        key: p.key.to_string(),
        value: p.value.as_ref().map(|v| v.to_string()),
        capture_id: p.capture_id,
    }).collect()
}

/// One node that a query captured, with the index of the capture.
pub struct Capture<'tree> {
    pub index: u32,
    pub node: tree_sitter::Node<'tree>,
}

/// One match of a query: which of its patterns matched, and what it captured.
pub struct QueryMatch<'tree> {
    pub pattern_index: usize,
    pub captures: Vec<Capture<'tree>>,
}

/// A query match as plain values: which pattern matched, and for each capture
/// its index and the range of its node.
pub type MatchView = (usize, Seq<(u32, tree_sitter::Range)>);

/// A query match with its nodes: which pattern matched, and each capture's
/// index and node.
pub type NodeMatch<'tree> = (usize, Seq<(u32, tree_sitter::Node<'tree>)>);

/// Matches with their nodes.
pub open spec fn match_node_views<'tree>(ms: Seq<QueryMatch<'tree>>) -> Seq<NodeMatch<'tree>> {
    ms.map_values(|m: QueryMatch<'tree>| (m.pattern_index, m.captures@.map_values(|c: Capture<'tree>| (c.index, c.node))))
}

/// Matches as plain values: each capture's node given by its range.
pub open spec fn spans_of<'tree>(ms: Seq<NodeMatch<'tree>>) -> Seq<MatchView> {
    ms.map_values(|m: NodeMatch<'tree>| (m.0, cap_spans(m.1)))
}

/// Captures as plain values: each node given by its range.
pub open spec fn cap_spans<'tree>(caps: Seq<(u32, tree_sitter::Node<'tree>)>) -> Seq<(u32, tree_sitter::Range)> {
    caps.map_values(|c: (u32, tree_sitter::Node<'tree>)| (c.0, node_range_of(c.1)))
}

/// Matches as plain values.
pub open spec fn match_views<'tree>(ms: Seq<QueryMatch<'tree>>) -> Seq<MatchView> {
    spans_of(match_node_views(ms))
}

/// Every match of `query` under `node` in the text `source`, in the order
/// tree-sitter finds them, by a fresh `QueryCursor` whose matches may start no
/// deeper than `max_start_depth` below `node` (no limit if `None`).
pub uninterp spec fn query_matches_of(
    query: tree_sitter::Query,
    node: tree_sitter::Node,
    source: Seq<u8>,
    max_start_depth: Option<u32>,
) -> Seq<NodeMatch>;

/// Whether `source` holds the bytes that `range` spans.
pub open spec fn range_within(range: tree_sitter::Range, source: Seq<u8>) -> bool {
    range.start_byte <= range.end_byte <= source.len()
}

/// `tree_sitter::QueryCursor::matches` on a new cursor with
/// `set_max_start_depth(max_start_depth)`, run to the end; the matches are
/// named by [`query_matches_of`]. The cursor reads the text of captured
/// nodes (for text predicates) from `source`, which must therefore hold the
/// node's bytes; the nodes it captures lie within the node.
#[verifier::external_body]
pub(crate) fn query_matches<'tree>(
    query: &tree_sitter::Query,
    node: tree_sitter::Node<'tree>,
    source: &[u8],
    max_start_depth: Option<u32>,
) -> (r: Vec<QueryMatch<'tree>>)
    requires
        range_within(node_range_of(node), source@),
    ensures
        match_node_views(r@) == query_matches_of(*query, node, source@, max_start_depth),
{
    let mut cursor = tree_sitter::QueryCursor::new();
    cursor.set_max_start_depth(max_start_depth);
    let mut found = Vec::new();
    let mut matches = cursor.matches(query, node, source);
    while let Some(m) = matches.next() {
        let captures = m.captures.iter().map(|c| Capture { index: c.index, node: c.node }).collect();
        found.push(QueryMatch { pattern_index: m.pattern_index, captures });
    }
    found
}

} // verus!

verus! {

/// `<tree_sitter::LanguageError as Display>::fmt`: which ABI version was refused.
#[verifier::external_body]
pub(crate) fn language_error_message(error: &tree_sitter::LanguageError) -> String {
    format!("{}", error)
}

/// `<tree_sitter::IncludedRangesError as Display>::fmt`: which range was refused.
#[verifier::external_body]
pub(crate) fn included_ranges_error_message(error: &tree_sitter::IncludedRangesError) -> String {
    format!("{}", error)
}

} // verus!

verus! {

/// The number of children of a node (`tree_sitter::Node::child_count`).
pub uninterp spec fn node_child_count_of(node: tree_sitter::Node) -> usize;

/// The child at index `i` of a node (`tree_sitter::Node::child`).
pub uninterp spec fn node_child_of(node: tree_sitter::Node, i: usize) -> tree_sitter::Node;

/// The name of the field that holds the child at this index, if any
/// (`tree_sitter::Node::field_name_for_child`).
pub uninterp spec fn field_name_of(node: tree_sitter::Node, child_index: u32) -> Option<Seq<char>>;

/// The name of a node's type (`tree_sitter::Node::kind`).
pub uninterp spec fn node_kind_of(node: tree_sitter::Node) -> Seq<char>;

/// Whether a node is named (`tree_sitter::Node::is_named`).
pub uninterp spec fn node_is_named_of(node: tree_sitter::Node) -> bool;

/// `tree_sitter::Node::field_name_for_child`: the name of the field that holds
/// the child at this index, if any; named by [`field_name_of`].
#[verifier::external_body]
pub(crate) fn field_name_for_child(node: &tree_sitter::Node, child_index: u32) -> (r: Option<&'static str>)
    ensures
        (match r {
            Some(f) => Some(f@),
            None => None,
        }) == field_name_of(*node, child_index),
{
    node.field_name_for_child(child_index)
}

/// `tree_sitter::Node::child_count`; named by [`node_child_count_of`].
#[verifier::external_body]
pub(crate) fn node_child_count(node: &tree_sitter::Node) -> (r: usize)
    ensures
        r == node_child_count_of(*node),
{
    node.child_count()
}

/// `tree_sitter::Node::child`, at an index below the child count, where it
/// always gives a child; named by [`node_child_of`].
#[verifier::external_body]
pub(crate) fn node_child<'tree>(node: &tree_sitter::Node<'tree>, i: usize) -> (r: tree_sitter::Node<'tree>)
    requires
        i < node_child_count_of(*node),
    ensures
        r == node_child_of(*node, i),
{
    node.child(i).expect("an index below the child count")
}

/// `tree_sitter::Node::kind`: the name of the node's type; named by [`node_kind_of`].
#[verifier::external_body]
pub(crate) fn node_kind(node: &tree_sitter::Node) -> (r: &'static str)
    ensures
        r@ == node_kind_of(*node),
{
    node.kind()
}

/// `tree_sitter::Node::is_named`; named by [`node_is_named_of`].
#[verifier::external_body]
pub(crate) fn node_is_named(node: &tree_sitter::Node) -> (r: bool)
    ensures
        r == node_is_named_of(*node),
{
    node.is_named()
}

} // verus!
