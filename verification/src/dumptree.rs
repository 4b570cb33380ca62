//! A readable dump of a syntax tree, for writing and checking queries.
use vstd::prelude::*;
use vstd::string::StringExecFns;
use crate::searches::{node_text, node_text_spec};
use crate::syntax::{self, field_name_of, node_child_count_of, node_child_of, node_is_named_of, node_kind_of, node_range_of, tree_root_of};
use crate::text::{debug_quoted, debug_string};

verus! {

/// The terminal color codes of a dump, or nothing when colors are off.
pub open spec fn color(use_color: bool, code: Seq<char>) -> Seq<char> {
    if use_color { code } else { Seq::empty() }
}

pub open spec fn color_end(c: bool) -> Seq<char> { color(c, "\x1b[m"@) }
pub open spec fn color_paren(c: bool) -> Seq<char> { color(c, "\x1b[1;37m"@) }
pub open spec fn color_nodekind(c: bool) -> Seq<char> { color(c, "\x1b[1;34m"@) }
pub open spec fn color_fieldname(c: bool) -> Seq<char> { color(c, "\x1b[0;36m"@) }
pub open spec fn color_eq(c: bool) -> Seq<char> { color(c, "\x1b[1;33m"@) }
pub open spec fn color_literal(c: bool) -> Seq<char> { color(c, "\x1b[0;32m"@) }

/// `n` spaces.
pub open spec fn spaces(n: nat) -> Seq<char> {
    Seq::new(n, |i: int| ' ')
}

/// One line of a dump, for a node at `depth`: the name of the field that holds
/// it, if any; then for an inner node `(kind`, for a named leaf `(kind = "text")`,
/// and for an anonymous leaf only `"text"`.
pub open spec fn node_line_spec(
    depth: nat,
    field_name: Option<Seq<char>>,
    kind: Seq<char>,
    leaf: Option<(bool, Seq<char>)>,
    c: bool,
) -> Seq<char> {
    spaces(depth) + field_prefix_spec(field_name, c) + node_body_spec(kind, leaf, c) + "\n"@
}

/// The name of the field that holds a node, as a dump line shows it.
pub open spec fn field_prefix_spec(field_name: Option<Seq<char>>, c: bool) -> Seq<char> {
    match field_name {
        Some(f) => color_fieldname(c) + f + color_eq(c) + ":"@ + color_end(c) + " "@,
        None => Seq::empty(),
    }
}

/// A node's kind and text, as a dump line shows them.
pub open spec fn node_body_spec(kind: Seq<char>, leaf: Option<(bool, Seq<char>)>, c: bool) -> Seq<char> {
    match leaf {
        None => color_paren(c) + "("@ + color_nodekind(c) + kind + color_end(c),
        Some((true, text)) => color_paren(c) + "("@ + color_nodekind(c) + kind + color_eq(c) + " = "@
            + color_literal(c) + debug_quoted(text) + color_paren(c) + ")"@ + color_end(c),
        Some((false, text)) => color_literal(c) + debug_quoted(text) + color_end(c),
    }
}

/// The line that closes the inner nodes at `depth`.
pub open spec fn close_line_spec(depth: nat, c: bool) -> Seq<char> {
    spaces(depth) + color_paren(c) + ")"@ + color_end(c) + "\n"@
}

fn colored(use_color: bool, code: &str) -> (r: String)
    ensures
        r@ == color(use_color, code@),
{
    if use_color { String::from_str(code) } else { String::new() }
}

/// `n` spaces.
fn indent(n: usize) -> (r: String)
    ensures
        r@ == spaces(n as nat),
{
    let mut s = String::new();
    let mut i: usize = 0;
    assert(s@ =~= spaces(0));
    while i < n
        invariant
            i <= n,
            s@ == spaces(i as nat),
        decreases n - i,
    {
        proof { reveal_strlit(" "); }
        s = s.concat(" ");
        assert(s@ =~= spaces((i + 1) as nat));
        i = i + 1;
    }
    s
}

/// One line of a dump (see [`node_line_spec`]).
pub fn node_line(
    depth: usize,
    field_name: Option<&str>,
    kind: &str,
    leaf: Option<(bool, &str)>,
    use_color: bool,
) -> (r: String)
    ensures
        r@ == node_line_spec(
            depth as nat,
            match field_name {
                Some(f) => Some(f@),
                None => None,
            },
            kind@,
            match leaf {
                Some((named, text)) => Some((named, text@)),
                None => None,
            },
            use_color,
        ),
{
    proof { reveal_strlit("\n"); }
    let f = match field_name {
        Some(f) => Some(f),
        None => None,
    };
    indent(depth).concat(field_prefix(f, use_color).as_str()).concat(node_body(kind, leaf, use_color).as_str()).concat("\n")
}

fn field_prefix(field_name: Option<&str>, use_color: bool) -> (r: String)
    ensures
        r@ == field_prefix_spec(
            match field_name {
                Some(f) => Some(f@),
                None => None,
            },
            use_color,
        ),
{
    proof {
        reveal_strlit("\x1b[m");
        reveal_strlit("\x1b[0;36m");
        reveal_strlit("\x1b[1;33m");
        reveal_strlit(":");
        reveal_strlit(" ");
    }
    match field_name {
        Some(f) => colored(use_color, "\x1b[0;36m").concat(f).concat(colored(use_color, "\x1b[1;33m").as_str())
            .concat(":").concat(colored(use_color, "\x1b[m").as_str()).concat(" "),
        None => String::new(),
    }
}

fn node_body(kind: &str, leaf: Option<(bool, &str)>, use_color: bool) -> (r: String)
    ensures
        r@ == node_body_spec(
            kind@,
            match leaf {
                Some((named, text)) => Some((named, text@)),
                None => None,
            },
            use_color,
        ),
{
    proof {
        reveal_strlit("\x1b[m");
        reveal_strlit("\x1b[1;37m");
        reveal_strlit("\x1b[1;34m");
        reveal_strlit("\x1b[1;33m");
        reveal_strlit("\x1b[0;32m");
        reveal_strlit("(");
        reveal_strlit(" = ");
        reveal_strlit(")");
    }
    let end = colored(use_color, "\x1b[m");
    let paren = colored(use_color, "\x1b[1;37m");
    let nodekind = colored(use_color, "\x1b[1;34m");
    match leaf {
        None => paren.concat("(").concat(nodekind.as_str()).concat(kind).concat(end.as_str()),
        Some((true, text)) => {
            let eq = colored(use_color, "\x1b[1;33m");
            let literal = colored(use_color, "\x1b[0;32m");
            let quoted = debug_string(text);
            String::new().concat(paren.as_str()).concat("(").concat(nodekind.as_str()).concat(kind)
                .concat(eq.as_str()).concat(" = ").concat(literal.as_str()).concat(quoted.as_str())
                .concat(paren.as_str()).concat(")").concat(end.as_str())
        },
        Some((false, text)) => {
            let literal = colored(use_color, "\x1b[0;32m");
            let quoted = debug_string(text);
            literal.concat(quoted.as_str()).concat(end.as_str())
        },
    }
}

/// The line that closes the inner nodes at `depth` (see [`close_line_spec`]).
pub fn close_line(depth: usize, use_color: bool) -> (r: String)
    ensures
        r@ == close_line_spec(depth as nat, use_color),
{
    proof {
        reveal_strlit("\x1b[m");
        reveal_strlit("\x1b[1;37m");
        reveal_strlit(")");
        reveal_strlit("\n");
    }
    let end = colored(use_color, "\x1b[m");
    let paren = colored(use_color, "\x1b[1;37m");
    indent(depth).concat(paren.as_str()).concat(")").concat(end.as_str()).concat("\n")
}

/// One line of a dump, as a value: a node's line or the line that closes an inner node.
pub enum DumpLine {
    Node { depth: nat, field_name: Option<Seq<char>>, kind: Seq<char>, leaf: Option<(bool, Seq<char>)> },
    Close { depth: nat },
}

/// The text of one line of a dump.
pub open spec fn line_text(l: DumpLine, c: bool) -> Seq<char> {
    match l {
        DumpLine::Node { depth, field_name, kind, leaf } => node_line_spec(depth, field_name, kind, leaf, c),
        DumpLine::Close { depth } => close_line_spec(depth, c),
    }
}

/// The text of a dump's lines, one after the other.
pub open spec fn render_lines(lines: Seq<DumpLine>, c: bool) -> Seq<char>
    decreases lines.len(),
{
    if lines.len() == 0 {
        Seq::empty()
    } else {
        render_lines(lines.drop_last(), c) + line_text(lines.last(), c)
    }
}

/// The text of a leaf as a dump shows it: its text in `source`, or nothing
/// where that is not UTF-8.
pub open spec fn leaf_text(source: Seq<u8>, node: tree_sitter::Node) -> Seq<char> {
    match node_text_spec(source, node_range_of(node)) {
        Some(t) => t,
        None => Seq::empty(),
    }
}

/// The line of `node` itself in a dump, at `depth`, held by the field `field`:
/// an inner node shows its kind, a leaf its kind and text.
pub open spec fn own_line(node: tree_sitter::Node, depth: nat, field: Option<Seq<char>>, source: Seq<u8>) -> DumpLine {
    DumpLine::Node {
        depth,
        field_name: field,
        kind: node_kind_of(node),
        leaf: if node_child_count_of(node) > 0 {
            None
        } else {
            Some((node_is_named_of(node), leaf_text(source, node)))
        },
    }
}

/// The lines of the dump of `node` at `depth` (held by the field `field`):
/// its own line, then the dumps of its children one level deeper, then, if it
/// is the last child of its parent (or the root), a line closing its level.
/// At most `fuel` levels below it are walked.
pub open spec fn node_dump(
    node: tree_sitter::Node,
    depth: nat,
    field: Option<Seq<char>>,
    last: bool,
    source: Seq<u8>,
    fuel: nat,
) -> Seq<DumpLine>
    decreases fuel, 1nat, 0nat,
{
    seq![own_line(node, depth, field, source)]
        + children_dump(node, 0, depth + 1, source, fuel)
        + if last { seq![DumpLine::Close { depth }] } else { Seq::empty() }
}

/// The dumps of the children of `node` from index `i` on, at `depth`.
pub open spec fn children_dump(node: tree_sitter::Node, i: nat, depth: nat, source: Seq<u8>, fuel: nat) -> Seq<DumpLine>
    decreases fuel, 0nat, node_child_count_of(node) - i,
{
    let n = node_child_count_of(node) as nat;
    if fuel == 0 || i >= n {
        Seq::empty()
    } else {
        node_dump(
            node_child_of(node, i as usize),
            depth,
            field_name_of(node, i as u32),
            i + 1 == n,
            source,
            (fuel - 1) as nat,
        ) + children_dump(node, i + 1, depth, source, fuel)
    }
}

/// The lines of the dump of a tree whose root is `root`: a depth-first walk
/// of every node (a tree is never as deep as the number of addresses).
pub open spec fn dump_lines(root: tree_sitter::Node, source: Seq<u8>) -> Seq<DumpLine> {
    node_dump(root, 0, None, true, source, usize::MAX as nat)
}

proof fn lemma_render_append(a: Seq<DumpLine>, b: Seq<DumpLine>, c: bool)
    ensures
        render_lines(a + b, c) == render_lines(a, c) + render_lines(b, c),
    decreases b.len(),
{
    if b.len() == 0 {
        assert(a + b =~= a);
    } else {
        lemma_render_append(a, b.drop_last(), c);
        assert((a + b).drop_last() =~= a + b.drop_last());
        assert((a + b).last() == b.last());
    }
}

proof fn lemma_render_one(l: DumpLine, c: bool)
    ensures
        render_lines(seq![l], c) == line_text(l, c),
{
    reveal_with_fuel(render_lines, 2);
    assert(seq![l].drop_last() =~= Seq::<DumpLine>::empty());
    assert(Seq::<char>::empty() + line_text(l, c) =~= line_text(l, c));
}

/// The view of an optional field name.
pub open spec fn field_view(field: Option<&'static str>) -> Option<Seq<char>> {
    match field {
        Some(f) => Some(f@),
        None => None,
    }
}

/// The text of the line of `node` itself (see [`own_line`]).
fn own_line_text(node: &tree_sitter::Node, depth: usize, field: Option<&'static str>, source: &[u8], use_color: bool) -> (r: String)
    ensures
        r@ == line_text(own_line(*node, depth as nat, field_view(field), source@), use_color),
{
    let kind = syntax::node_kind(node);
    let n = syntax::node_child_count(node);
    if n > 0 {
        node_line(depth, field, kind, None, use_color)
    } else {
        let content = match node_text(source, &syntax::node_range(node)) {
            Some(t) => t,
            None => String::new(),
        };
        let named = syntax::node_is_named(node);
        assert(content@ == leaf_text(source@, *node));
        node_line(depth, field, kind, Some((named, content.as_str())), use_color)
    }
}

/// Appends the dump of `node` (see [`node_dump`]).
#[verifier::spinoff_prover]
#[verifier::rlimit(50)]
fn dump_node(
    node: tree_sitter::Node,
    depth: usize,
    field: Option<&'static str>,
    last: bool,
    source: &[u8],
    use_color: bool,
    fuel: usize,
    out: &mut String,
)
    requires
        depth + fuel <= usize::MAX,
    ensures
        final(out)@ == old(out)@ + render_lines(node_dump(node, depth as nat, field_view(field), last, source@, fuel as nat), use_color),
    decreases fuel, 1nat, 0nat,
{
    let ghost own = own_line(node, depth as nat, field_view(field), source@);
    let ghost kids = children_dump(node, 0, (depth + 1) as nat, source@, fuel as nat);
    let ghost tail: Seq<DumpLine> = if last { seq![DumpLine::Close { depth: depth as nat }] } else { Seq::empty() };
    let line = own_line_text(&node, depth, field, source, use_color);
    out.append(line.as_str());
    let ghost after_own = out@;
    if fuel > 0 {
        dump_children(node, 0, depth + 1, source, use_color, fuel, out);
    } else {
        assert(kids =~= Seq::<DumpLine>::empty());
        assert(render_lines(kids, use_color) =~= Seq::<char>::empty());
        assert(out@ =~= after_own + render_lines(kids, use_color));
    }
    let ghost after_kids = out@;
    if last {
        out.append(close_line(depth, use_color).as_str());
        proof { lemma_render_one(DumpLine::Close { depth: depth as nat }, use_color); }
    } else {
        assert(render_lines(tail, use_color) =~= Seq::<char>::empty());
        assert(out@ =~= after_kids + render_lines(tail, use_color));
    }
    proof {
        lemma_render_one(own, use_color);
        lemma_render_append(seq![own], kids, use_color);
        lemma_render_append(seq![own] + kids, tail, use_color);
        assert(node_dump(node, depth as nat, field_view(field), last, source@, fuel as nat) == seq![own] + kids + tail);
        assert(out@ =~= old(out)@ + render_lines(seq![own] + kids + tail, use_color));
    }
}

/// Appends the dumps of the children of `node` from index `i` on (see [`children_dump`]).
#[verifier::spinoff_prover]
#[verifier::rlimit(50)]
fn dump_children(
    node: tree_sitter::Node,
    i: usize,
    depth: usize,
    source: &[u8],
    use_color: bool,
    fuel: usize,
    out: &mut String,
)
    requires
        depth + fuel <= usize::MAX + 1,
        i <= node_child_count_of(node),
    ensures
        final(out)@ == old(out)@ + render_lines(children_dump(node, i as nat, depth as nat, source@, fuel as nat), use_color),
    decreases fuel, 0nat, node_child_count_of(node) - i,
{
    let n = syntax::node_child_count(&node);
    if fuel == 0 || i >= n {
        proof { assert(render_lines(Seq::<DumpLine>::empty(), use_color) =~= Seq::<char>::empty()); }
        assert(out@ =~= old(out)@ + Seq::<char>::empty());
        return;
    }
    let child = syntax::node_child(&node, i);
    let field = syntax::field_name_for_child(&node, #[verifier::truncate] (i as u32));
    assert(field_view(field) == field_name_of(node, i as u32));
    let ghost first = node_dump(
        node_child_of(node, i),
        depth as nat,
        field_name_of(node, i as u32),
        (i + 1) as nat == n as nat,
        source@,
        (fuel - 1) as nat,
    );
    dump_node(child, depth, field, i + 1 == n, source, use_color, fuel - 1, out);
    let ghost mid = out@;
    dump_children(node, i + 1, depth, source, use_color, fuel, out);
    proof {
        let rest = children_dump(node, (i + 1) as nat, depth as nat, source@, fuel as nat);
        lemma_render_append(first, rest, use_color);
        assert(children_dump(node, i as nat, depth as nat, source@, fuel as nat) == first + rest);
    }
}

/// The structure of `tree` as text, one node per line, indented by depth, in
/// the order of a depth-first walk; the last child of each node (and the root)
/// is followed by a line closing its level. A leaf shows its text from
/// `source` (empty where that is not UTF-8).
pub fn dump_tree(tree: &tree_sitter::Tree, source: &[u8], use_color: bool) -> (r: String)
    ensures
        r@ == render_lines(dump_lines(tree_root_of(tree), source@), use_color),
{
    let mut out = String::new();
    assert(out@ =~= Seq::<char>::empty());
    dump_node(syntax::root_node(tree), 0, None, true, source, use_color, usize::MAX, &mut out);
    out
}

} // verus!
