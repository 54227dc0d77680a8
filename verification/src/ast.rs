//! The syntax tree of a Bicep file as the AST export tool presents it: each
//! node with its kind, field name, position, text and children, and the
//! filters, limits, counts and searches the tool applies to it.
use vstd::prelude::*;
use vstd::string::StringSliceAdditionalSpecFns;
use vstd::utf8::{
    decode_utf8, encode_utf8, encode_utf8_decode_utf8, encode_utf8_valid_utf8, is_char_boundary,
    is_char_boundary_iff_not_is_continuation_byte, is_char_boundary_start_end_of_seq,
    valid_utf8_split,
};

use crate::ordered_map::{
    get_key, kv_view, lemma_key_pos_some, lemma_kv_view_insert, lemma_kv_view_lookup, put, OrderedMap,
};
use crate::parsing::syntax::{bicep_node_at, ts_node_at};
use crate::text::{
    append_chars, append_str, chars_of, nat_decimal, nat_decimal_exec, spec_contains, string_of,
};

verus! {

/// A position in the source: row and column, counted from zero.
#[derive(Debug, Clone, Copy)]
pub struct Position {
    pub row: usize,
    pub column: usize,
}

/// A node of the exported syntax tree.
#[derive(Debug)]
pub struct AstNode {
    /// The node type in the grammar
    pub kind: String,
    /// The field name under which the parent holds this node
    pub field_name: Option<String>,
    /// Whether the node is named in the grammar
    pub named: bool,
    /// Where the node starts
    pub start_position: Position,
    /// Where the node ends
    pub end_position: Position,
    /// Its first byte in the source
    pub start_byte: usize,
    /// The byte after its last one
    pub end_byte: usize,
    /// Its text (possibly shortened)
    pub text: String,
    /// Its path from the root, where paths were generated
    pub path: Option<String>,
    /// Its children, in source order
    pub children: Vec<AstNode>,
}

/// The content of an `AstNode`.
pub struct AstView {
    pub kind: Seq<char>,
    pub field_name: Option<Seq<char>>,
    pub named: bool,
    pub start: Position,
    pub end: Position,
    pub start_byte: usize,
    pub end_byte: usize,
    pub text: Seq<char>,
    pub path: Option<Seq<char>>,
    pub children: Seq<AstView>,
}

pub open spec fn opt_text(o: Option<String>) -> Option<Seq<char>> {
    match o {
        Some(s) => Some(s@),
        None => None,
    }
}

pub open spec fn ast_view(n: AstNode) -> AstView
    decreases n,
{
    AstView {
        kind: n.kind@,
        field_name: opt_text(n.field_name),
        named: n.named,
        start: n.start_position,
        end: n.end_position,
        start_byte: n.start_byte,
        end_byte: n.end_byte,
        text: n.text@,
        path: opt_text(n.path),
        children: Seq::new(
            n.children@.len(),
            |i: int|
                if 0 <= i < n.children@.len() {
                    proof {
                        assert(decreases_to!(n => n.children@[i]));
                    }
                    ast_view(n.children@[i])
                } else {
                    AstView {
                        kind: Seq::empty(),
                        field_name: None,
                        named: false,
                        start: Position { row: 0, column: 0 },
                        end: Position { row: 0, column: 0 },
                        start_byte: 0,
                        end_byte: 0,
                        text: Seq::empty(),
                        path: None,
                        children: Seq::empty(),
                    }
                },
        ),
    }
}

/// The views of a sequence of nodes.
pub open spec fn ast_views(s: Seq<AstNode>) -> Seq<AstView> {
    Seq::new(s.len(), |i: int| ast_view(s[i]))
}

impl View for AstNode {
    type V = AstView;

    open spec fn view(&self) -> AstView {
        ast_view(*self)
    }
}

pub proof fn lemma_ast_view_children(n: AstNode)
    ensures
        ast_view(n).children == ast_views(n.children@),
{
    assert(ast_view(n).children =~= ast_views(n.children@));
}

/// The node with other children.
pub open spec fn with_children(v: AstView, c: Seq<AstView>) -> AstView {
    AstView { children: c, ..v }
}

// ---------------------------------------------------------------
// Counting
// ---------------------------------------------------------------

/// The number of nodes of a tree.
pub open spec fn node_count(v: AstView) -> nat
    decreases v, 1int,
{
    1 + nodes_count(v.children)
}

/// The number of nodes of a sequence of trees.
pub open spec fn nodes_count(s: Seq<AstView>) -> nat
    decreases s, 0int,
{
    if s.len() == 0 {
        0
    } else {
        nodes_count(s.subrange(0, s.len() - 1)) + node_count(s[s.len() - 1])
    }
}

/// The depth of a tree: one for a leaf.
pub open spec fn tree_depth(v: AstView) -> nat
    decreases v, 1int,
{
    if v.children.len() == 0 {
        1
    } else {
        1 + max_depth_of(v.children)
    }
}

/// The greatest depth among a sequence of trees (zero for none).
pub open spec fn max_depth_of(s: Seq<AstView>) -> nat
    decreases s, 0int,
{
    if s.len() == 0 {
        0
    } else {
        let a = max_depth_of(s.subrange(0, s.len() - 1));
        let b = tree_depth(s[s.len() - 1]);
        if a >= b {
            a
        } else {
            b
        }
    }
}

/// Copies a node and all nodes below it.
pub fn clone_node(n: &AstNode) -> (r: AstNode)
    ensures
        r@ == n@,
    decreases n,
{
    let mut children: Vec<AstNode> = Vec::new();
    let mut i: usize = 0;
    proof {
        lemma_ast_view_children(*n);
    }
    while i < n.children.len()
        invariant
            i <= n.children@.len(),
            ast_views(children@) == ast_views(n.children@).subrange(0, i as int),
        decreases n.children@.len() - i,
    {
        proof {
            assert(decreases_to!(n => n.children@[i as int]));
        }
        let c = clone_node(&n.children[i]);
        let ghost before = children@;
        children.push(c);
        assert(ast_views(children@) =~= ast_views(before).push(c@));
        i = i + 1;
        assert(ast_views(children@) =~= ast_views(n.children@).subrange(0, i as int));
    }
    let r = AstNode {
        kind: n.kind.clone(),
        field_name: n.field_name.clone(),
        named: n.named,
        start_position: n.start_position,
        end_position: n.end_position,
        start_byte: n.start_byte,
        end_byte: n.end_byte,
        text: n.text.clone(),
        path: n.path.clone(),
        children,
    };
    proof {
        lemma_ast_view_children(r);
        assert(ast_views(n.children@).subrange(0, n.children@.len() as int) =~= ast_views(n.children@));
    }
    assert(r@ =~= n@);
    r
}

/// The number of nodes of the tree.
pub fn count_nodes(node: &AstNode) -> (r: usize)
    requires
        node_count(node@) <= usize::MAX,
    ensures
        r == node_count(node@),
    decreases node,
{
    proof {
        lemma_ast_view_children(*node);
    }
    let ghost s = ast_views(node.children@);
    let mut total: usize = 1;
    let mut i: usize = 0;
    while i < node.children.len()
        invariant
            i <= node.children@.len(),
            s == ast_views(node.children@),
            s == node@.children,
            node_count(node@) <= usize::MAX,
            total == 1 + nodes_count(s.subrange(0, i as int)),
        decreases node.children@.len() - i,
    {
        proof {
            assert(decreases_to!(node => node.children@[i as int]));
            assert(s.subrange(0, i + 1).subrange(0, i as int) =~= s.subrange(0, i as int));
            lemma_nodes_count_prefix(s, i + 1);
        }
        let c = count_nodes(&node.children[i]);
        total = total + c;
        i = i + 1;
    }
    assert(s.subrange(0, s.len() as int) =~= s);
    total
}

/// A prefix of a sequence of trees has no more nodes than the sequence.
pub proof fn lemma_nodes_count_prefix(s: Seq<AstView>, k: int)
    requires
        0 <= k <= s.len(),
    ensures
        nodes_count(s.subrange(0, k)) <= nodes_count(s),
    decreases s.len(),
{
    if k < s.len() {
        assert(s.subrange(0, s.len() - 1).subrange(0, k) =~= s.subrange(0, k));
        lemma_nodes_count_prefix(s.subrange(0, s.len() - 1), k);
    } else {
        assert(s.subrange(0, k) =~= s);
    }
}

/// The depth of the tree: one for a leaf.
pub fn max_depth(node: &AstNode) -> (r: usize)
    requires
        tree_depth(node@) <= usize::MAX,
    ensures
        r == tree_depth(node@),
    decreases node,
{
    proof {
        lemma_ast_view_children(*node);
    }
    let ghost s = ast_views(node.children@);
    if node.children.len() == 0 {
        return 1;
    }
    let mut best: usize = 0;
    let mut i: usize = 0;
    while i < node.children.len()
        invariant
            i <= node.children@.len(),
            s == ast_views(node.children@),
            s == node@.children,
            s.len() > 0,
            tree_depth(node@) == 1 + max_depth_of(s),
            tree_depth(node@) <= usize::MAX,
            best == max_depth_of(s.subrange(0, i as int)),
        decreases node.children@.len() - i,
    {
        proof {
            assert(decreases_to!(node => node.children@[i as int]));
            assert(s.subrange(0, i + 1).subrange(0, i as int) =~= s.subrange(0, i as int));
            lemma_max_depth_prefix(s, i + 1);
            lemma_depth_in(s, i as int);
        }
        let d = max_depth(&node.children[i]);
        if d > best {
            best = d;
        }
        i = i + 1;
    }
    assert(s.subrange(0, s.len() as int) =~= s);
    best + 1
}

/// A prefix of a sequence of trees is no deeper than the sequence.
pub proof fn lemma_max_depth_prefix(s: Seq<AstView>, k: int)
    requires
        0 <= k <= s.len(),
    ensures
        max_depth_of(s.subrange(0, k)) <= max_depth_of(s),
    decreases s.len(),
{
    if k < s.len() {
        assert(s.subrange(0, s.len() - 1).subrange(0, k) =~= s.subrange(0, k));
        lemma_max_depth_prefix(s.subrange(0, s.len() - 1), k);
    } else {
        assert(s.subrange(0, k) =~= s);
    }
}

/// Each tree of a sequence is no deeper than the deepest.
pub proof fn lemma_depth_in(s: Seq<AstView>, i: int)
    requires
        0 <= i < s.len(),
    ensures
        tree_depth(s[i]) <= max_depth_of(s),
    decreases s.len(),
{
    if i < s.len() - 1 {
        lemma_depth_in(s.subrange(0, s.len() - 1), i);
    }
}

// ---------------------------------------------------------------
// Filters
// ---------------------------------------------------------------

/// The tree cut down to the nodes whose lines include `line`: a node that
/// spans the line keeps the children that span it too.
pub open spec fn line_filter(v: AstView, line: usize) -> Option<AstView>
    decreases v, 1int,
{
    if v.start.row <= line && line <= v.end.row {
        Some(with_children(v, line_filter_all(v.children, line)))
    } else {
        None
    }
}

pub open spec fn line_filter_all(s: Seq<AstView>, line: usize) -> Seq<AstView>
    decreases s, 0int,
{
    if s.len() == 0 {
        Seq::empty()
    } else {
        line_filter_all(s.subrange(0, s.len() - 1), line) + match line_filter(s[s.len() - 1], line) {
            Some(x) => seq![x],
            None => Seq::empty(),
        }
    }
}

/// The tree cut down to the nodes held under field `f`, with the nodes above
/// them: a node under `f` is kept whole; another is kept with its kept
/// children, if it has any.
pub open spec fn field_kept(v: AstView, f: Seq<char>) -> Option<AstView>
    decreases v, 1int,
{
    if v.field_name == Some(f) {
        Some(v)
    } else {
        let c = field_kept_all(v.children, f);
        if c.len() == 0 {
            None
        } else {
            Some(with_children(v, c))
        }
    }
}

pub open spec fn field_kept_all(s: Seq<AstView>, f: Seq<char>) -> Seq<AstView>
    decreases s, 0int,
{
    if s.len() == 0 {
        Seq::empty()
    } else {
        field_kept_all(s.subrange(0, s.len() - 1), f) + match field_kept(s[s.len() - 1], f) {
            Some(x) => seq![x],
            None => Seq::empty(),
        }
    }
}

/// Whether a node has the kind `t` (any kind when there is no filter).
pub open spec fn type_matches(v: AstView, t: Option<Seq<char>>) -> bool {
    match t {
        Some(k) => v.kind == k,
        None => true,
    }
}

/// Whether a node's text contains `p` (any text when there is no filter).
pub open spec fn text_matches(v: AstView, p: Option<Seq<char>>) -> bool {
    match p {
        Some(q) => spec_contains(v.text, q),
        None => true,
    }
}

/// The tree filtered by kind and text: a node matching both is kept whole;
/// another keeps its filtered children, dropping those left without children
/// when it matches neither filter.
pub open spec fn kind_text_filter(v: AstView, t: Option<Seq<char>>, p: Option<Seq<char>>) -> AstView
    decreases v, 1int,
{
    if type_matches(v, t) && text_matches(v, p) {
        v
    } else {
        with_children(
            v,
            kind_text_filter_all(v.children, t, p, !type_matches(v, t) && !text_matches(v, p)),
        )
    }
}

pub open spec fn kind_text_filter_all(
    s: Seq<AstView>,
    t: Option<Seq<char>>,
    p: Option<Seq<char>>,
    drop_bare: bool,
) -> Seq<AstView>
    decreases s, 0int,
{
    if s.len() == 0 {
        Seq::empty()
    } else {
        let f = kind_text_filter(s[s.len() - 1], t, p);
        kind_text_filter_all(s.subrange(0, s.len() - 1), t, p, drop_bare) + if f.children.len()
            == 0 && drop_bare {
            Seq::empty()
        } else {
            seq![f]
        }
    }
}

/// A node like `n` with the given children.
fn node_with_children(n: &AstNode, children: Vec<AstNode>) -> (r: AstNode)
    ensures
        r@ == with_children(n@, ast_views(children@)),
{
    let r = AstNode {
        kind: n.kind.clone(),
        field_name: n.field_name.clone(),
        named: n.named,
        start_position: n.start_position,
        end_position: n.end_position,
        start_byte: n.start_byte,
        end_byte: n.end_byte,
        text: n.text.clone(),
        path: n.path.clone(),
        children,
    };
    proof {
        lemma_ast_view_children(r);
    }
    assert(r@ =~= with_children(n@, ast_views(children@)));
    r
}

/// Pushes an optional node.
fn push_some(out: &mut Vec<AstNode>, o: Option<AstNode>)
    ensures
        ast_views(final(out)@) == ast_views(old(out)@) + match o {
            Some(x) => seq![x@],
            None => Seq::<AstView>::empty(),
        },
{
    let ghost before = out@;
    match o {
        Some(x) => {
            out.push(x);
            assert(ast_views(out@) =~= ast_views(before).push(x@));
        },
        None => {
            assert(ast_views(out@) =~= ast_views(before) + Seq::<AstView>::empty());
        },
    }
}

/// Whether every node of the tree spans line `line`.
pub open spec fn spans_line(v: AstView, line: usize) -> bool
    decreases v, 1int,
{
    v.start.row <= line && line <= v.end.row && all_span_line(v.children, line)
}

/// Whether every node of each tree spans line `line`.
pub open spec fn all_span_line(s: Seq<AstView>, line: usize) -> bool
    decreases s, 0int,
{
    s.len() > 0 ==> all_span_line(s.subrange(0, s.len() - 1), line) && spans_line(
        s[s.len() - 1],
        line,
    )
}

/// Every node that the line filter keeps spans the line.
pub proof fn law_line_filter_keeps_spanning_nodes(v: AstView, line: usize)
    ensures
        line_filter(v, line) matches Some(x) ==> spans_line(x, line),
    decreases v, 1int,
{
    if v.start.row <= line && line <= v.end.row {
        lemma_line_filter_all_spans(v.children, line);
        let x = with_children(v, line_filter_all(v.children, line));
        assert(x.children == line_filter_all(v.children, line));
    }
}

/// Every node of the trees that the line filter keeps spans the line.
pub proof fn lemma_line_filter_all_spans(s: Seq<AstView>, line: usize)
    ensures
        all_span_line(line_filter_all(s, line), line),
    decreases s, 0int,
{
    if s.len() > 0 {
        let pre = line_filter_all(s.subrange(0, s.len() - 1), line);
        lemma_line_filter_all_spans(s.subrange(0, s.len() - 1), line);
        law_line_filter_keeps_spanning_nodes(s[s.len() - 1], line);
        match line_filter(s[s.len() - 1], line) {
            Some(x) => {
                let r = pre + seq![x];
                assert(r.subrange(0, r.len() - 1) =~= pre);
                assert(r == line_filter_all(s, line));
            },
            None => {
                assert(pre + Seq::<AstView>::empty() =~= pre);
            },
        }
    }
}

/// The tree cut down to the nodes whose lines include `line`; `None` where
/// the root does not span it.
pub fn filter_nodes_by_line(node: &AstNode, line: usize) -> (r: Option<AstNode>)
    ensures
        match r {
            Some(x) => line_filter(node@, line) == Some(x@),
            None => line_filter(node@, line) is None,
        },
    decreases node,
{
    if !(node.start_position.row <= line && line <= node.end_position.row) {
        return None;
    }
    proof {
        lemma_ast_view_children(*node);
    }
    let ghost s = ast_views(node.children@);
    let mut kept: Vec<AstNode> = Vec::new();
    let mut i: usize = 0;
    while i < node.children.len()
        invariant
            i <= node.children@.len(),
            s == ast_views(node.children@),
            ast_views(kept@) == line_filter_all(s.subrange(0, i as int), line),
        decreases node.children@.len() - i,
    {
        proof {
            assert(decreases_to!(node => node.children@[i as int]));
            assert(s.subrange(0, i + 1).subrange(0, i as int) =~= s.subrange(0, i as int));
        }
        let f = filter_nodes_by_line(&node.children[i], line);
        push_some(&mut kept, f);
        i = i + 1;
    }
    assert(s.subrange(0, s.len() as int) =~= s);
    Some(node_with_children(node, kept))
}

/// The tree cut down to the nodes held under field `field_filter`, with the
/// nodes above them; `None` where there are none.
pub fn filter_by_field_name(node: &AstNode, field_filter: &str) -> (r: Option<AstNode>)
    ensures
        match r {
            Some(x) => field_kept(node@, field_filter@) == Some(x@),
            None => field_kept(node@, field_filter@) is None,
        },
    decreases node,
{
    match &node.field_name {
        Some(f) => {
            if crate::text::str_eq(f.as_str(), field_filter) {
                return Some(clone_node(node));
            }
        },
        None => {},
    }
    proof {
        lemma_ast_view_children(*node);
    }
    let ghost s = ast_views(node.children@);
    let mut kept: Vec<AstNode> = Vec::new();
    let mut i: usize = 0;
    while i < node.children.len()
        invariant
            i <= node.children@.len(),
            s == ast_views(node.children@),
            ast_views(kept@) == field_kept_all(s.subrange(0, i as int), field_filter@),
        decreases node.children@.len() - i,
    {
        proof {
            assert(decreases_to!(node => node.children@[i as int]));
            assert(s.subrange(0, i + 1).subrange(0, i as int) =~= s.subrange(0, i as int));
        }
        let f = filter_by_field_name(&node.children[i], field_filter);
        push_some(&mut kept, f);
        i = i + 1;
    }
    assert(s.subrange(0, s.len() as int) =~= s);
    if kept.len() == 0 {
        None
    } else {
        Some(node_with_children(node, kept))
    }
}

/// Whether the node matches the kind filter and the text filter.
fn node_matches(node: &AstNode, type_filter: Option<&str>, path_filter: Option<&str>) -> (r: (
    bool,
    bool,
))
    ensures
        r.0 == type_matches(
            node@,
            match type_filter {
                Some(x) => Some(x@),
                None => None,
            },
        ),
        r.1 == text_matches(
            node@,
            match path_filter {
                Some(x) => Some(x@),
                None => None,
            },
        ),
{
    let tm = match type_filter {
        Some(f) => crate::text::str_eq(node.kind.as_str(), f),
        None => true,
    };
    let pm = match path_filter {
        Some(f) => {
            let tv = chars_of(node.text.as_str());
            crate::text::contains_str(tv.as_slice(), f)
        },
        None => true,
    };
    (tm, pm)
}

/// The tree filtered by kind (`type_filter`) and text (`path_filter`): a node
/// matching both is kept whole; another keeps its filtered children.
pub fn filter_nodes(node: &AstNode, type_filter: Option<&str>, path_filter: Option<&str>) -> (r: AstNode)
    ensures
        r@ == kind_text_filter(
            node@,
            match type_filter {
                Some(x) => Some(x@),
                None => None,
            },
            match path_filter {
                Some(x) => Some(x@),
                None => None,
            },
        ),
    decreases node,
{
    let ghost t = match type_filter {
        Some(x) => Some(x@),
        None => None::<Seq<char>>,
    };
    let ghost p = match path_filter {
        Some(x) => Some(x@),
        None => None::<Seq<char>>,
    };
    let (tm, pm) = node_matches(node, type_filter, path_filter);
    if tm && pm {
        return clone_node(node);
    }
    proof {
        lemma_ast_view_children(*node);
    }
    let ghost s = ast_views(node.children@);
    let drop_bare = !tm && !pm;
    let mut kept: Vec<AstNode> = Vec::new();
    let mut i: usize = 0;
    while i < node.children.len()
        invariant
            i <= node.children@.len(),
            s == ast_views(node.children@),
            ast_views(kept@) == kind_text_filter_all(s.subrange(0, i as int), t, p, drop_bare),
            t == match type_filter {
                Some(x) => Some(x@),
                None => None::<Seq<char>>,
            },
            p == match path_filter {
                Some(x) => Some(x@),
                None => None::<Seq<char>>,
            },
        decreases node.children@.len() - i,
    {
        proof {
            assert(decreases_to!(node => node.children@[i as int]));
            assert(s.subrange(0, i + 1).subrange(0, i as int) =~= s.subrange(0, i as int));
        }
        let f = filter_nodes(&node.children[i], type_filter, path_filter);
        proof {
            lemma_ast_view_children(f);
        }
        let ghost before = kept@;
        if !(f.children.len() == 0 && drop_bare) {
            kept.push(f);
            assert(ast_views(kept@) =~= ast_views(before).push(f@));
        }
        i = i + 1;
        assert(ast_views(kept@) =~= kind_text_filter_all(s.subrange(0, i as int), t, p, drop_bare));
    }
    assert(s.subrange(0, s.len() as int) =~= s);
    node_with_children(node, kept)
}

// ---------------------------------------------------------------
// Limits, paths and searches
// ---------------------------------------------------------------

/// The tree cut down to the first nodes in preorder up to a limit (no limit
/// when `max` is zero), with `count` nodes already taken; also the count
/// after it. A node taken as the last one keeps no children.
pub open spec fn limit(v: AstView, max: nat, count: nat) -> (Option<AstView>, nat)
    decreases v, 1int, 0int,
{
    if count >= max && max > 0 {
        (None, count)
    } else if max > 0 && count + 1 >= max {
        (Some(with_children(v, Seq::empty())), count + 1)
    } else {
        let (cs, c) = limit_from(v.children, 0, max, count + 1, Seq::empty());
        (Some(with_children(v, cs)), c)
    }
}

/// The children from the `k`-th on, limited in turn after `acc`, stopping
/// once the limit is reached.
pub open spec fn limit_from(
    s: Seq<AstView>,
    k: nat,
    max: nat,
    count: nat,
    acc: Seq<AstView>,
) -> (Seq<AstView>, nat)
    decreases s, 0int, s.len() - k,
{
    if k >= s.len() {
        (acc, count)
    } else {
        let (o, c) = limit(s[k as int], max, count);
        let acc2 = match o {
            Some(x) => acc.push(x),
            None => acc,
        };
        if max > 0 && c >= max {
            (acc2, c)
        } else {
            limit_from(s, k + 1, max, c, acc2)
        }
    }
}

/// The number of nodes of a sequence with one more tree at its end.
pub proof fn lemma_nodes_count_push(s: Seq<AstView>, x: AstView)
    ensures
        nodes_count(s.push(x)) == nodes_count(s) + node_count(x),
{
    assert(s.push(x).subrange(0, s.len() as int) =~= s);
}

/// What limiting counts: the count after a tree exceeds the count before by
/// the nodes it keeps, and stays within the limit.
pub proof fn lemma_limit_counts(v: AstView, max: nat, count: nat)
    ensures
        limit(v, max, count).1 >= count,
        max > 0 && count <= max ==> limit(v, max, count).1 <= max,
        match limit(v, max, count).0 {
            Some(x) => node_count(x) == limit(v, max, count).1 - count,
            None => limit(v, max, count).1 == count,
        },
    decreases v, 1int, 0int,
{
    if count >= max && max > 0 {
    } else if max > 0 && count + 1 >= max {
        assert(node_count(with_children(v, Seq::empty())) == 1);
    } else {
        lemma_limit_from_counts(v.children, 0, max, count + 1, Seq::empty());
    }
}

/// What limiting a sequence of trees from the `k`-th on counts.
pub proof fn lemma_limit_from_counts(
    s: Seq<AstView>,
    k: nat,
    max: nat,
    count: nat,
    acc: Seq<AstView>,
)
    ensures
        limit_from(s, k, max, count, acc).1 >= count,
        max > 0 && count <= max ==> limit_from(s, k, max, count, acc).1 <= max,
        nodes_count(limit_from(s, k, max, count, acc).0) == nodes_count(acc) + limit_from(
            s,
            k,
            max,
            count,
            acc,
        ).1 - count,
    decreases s, 0int, s.len() - k,
{
    if k < s.len() {
        let (o, c) = limit(s[k as int], max, count);
        lemma_limit_counts(s[k as int], max, count);
        let acc2 = match o {
            Some(x) => acc.push(x),
            None => acc,
        };
        match o {
            Some(x) => lemma_nodes_count_push(acc, x),
            None => {},
        }
        if !(max > 0 && c >= max) {
            lemma_limit_from_counts(s, k + 1, max, c, acc2);
        }
    }
}

/// With a limit, the limited tree has no more nodes than the limit, and the
/// count after it is its number of nodes.
pub proof fn law_limit_keeps_at_most_max(v: AstView, max: nat)
    requires
        max > 0,
    ensures
        limit(v, max, 0).0 matches Some(x) ==> node_count(x) <= max && node_count(x) == limit(
            v,
            max,
            0,
        ).1,
{
    lemma_limit_counts(v, max, 0);
}

/// Limiting with no limit (zero) and `acc` before gives the trees from the
/// `k`-th on whole, after `acc`, and counts all their nodes.
pub proof fn lemma_unlimited_from(s: Seq<AstView>, k: nat, count: nat, acc: Seq<AstView>)
    requires
        k <= s.len(),
    ensures
        limit_from(s, k, 0, count, acc).0 == acc + s.subrange(k as int, s.len() as int),
        limit_from(s, k, 0, count, acc).1 == count + nodes_count(s) - nodes_count(
            s.subrange(0, k as int),
        ),
    decreases s, 0int, s.len() - k,
{
    if k < s.len() {
        law_unlimited_keeps_tree(s[k as int], count);
        assert(s.subrange(0, k + 1int).subrange(0, k as int) =~= s.subrange(0, k as int));
        assert(s.subrange(0, k + 1int)[k as int] == s[k as int]);
        lemma_nodes_count_prefix(s, k + 1int);
        lemma_unlimited_from(s, k + 1, count + node_count(s[k as int]), acc.push(s[k as int]));
        assert(acc.push(s[k as int]) + s.subrange(k + 1int, s.len() as int) =~= acc + s.subrange(
            k as int,
            s.len() as int,
        ));
    } else {
        assert(s.subrange(0, s.len() as int) =~= s);
        assert(acc + s.subrange(k as int, s.len() as int) =~= acc);
    }
}

/// With no limit (zero) the tree is kept whole and all its nodes are counted.
pub proof fn law_unlimited_keeps_tree(v: AstView, count: nat)
    ensures
        limit(v, 0, count) == (Some(v), count + node_count(v)),
    decreases v, 1int, 1int,
{
    lemma_unlimited_from(v.children, 0, count + 1, Seq::empty());
    assert(v.children.subrange(0, 0) =~= Seq::<AstView>::empty());
    assert(Seq::<AstView>::empty() + v.children.subrange(0, v.children.len() as int) =~= v.children);
    assert(with_children(v, v.children) == v);
}

/// The tree limited to the first `max_nodes` nodes in preorder (all when
/// `max_nodes` is zero), counting on from `*current_count`.
pub fn limit_nodes(node: &AstNode, max_nodes: usize, current_count: &mut usize) -> (r: Option<
    AstNode,
>)
    requires
        *old(current_count) + node_count(node@) <= usize::MAX,
    ensures
        (match r {
            Some(x) => Some(x@),
            None => None,
        }, *final(current_count) as nat) == limit(node@, max_nodes as nat, *old(current_count) as nat),
        *old(current_count) <= *final(current_count) <= *old(current_count) + node_count(node@),
    decreases node,
{
    if *current_count >= max_nodes && max_nodes > 0 {
        return None;
    }
    *current_count = *current_count + 1;
    if max_nodes > 0 && *current_count >= max_nodes {
        let none: Vec<AstNode> = Vec::new();
        assert(ast_views(none@) =~= Seq::<AstView>::empty());
        return Some(node_with_children(node, none));
    }
    proof {
        lemma_ast_view_children(*node);
    }
    let ghost s = ast_views(node.children@);
    let ghost c0 = *current_count as nat;
    let mut kept: Vec<AstNode> = Vec::new();
    assert(ast_views(kept@) =~= Seq::<AstView>::empty());
    assert(s.subrange(0, s.len() as int) =~= s);
    assert(s.subrange(0, 0) =~= Seq::<AstView>::empty());
    let mut i: usize = 0;
    while i < node.children.len()
        invariant_except_break
            limit_from(s, 0, max_nodes as nat, c0, Seq::empty()) == limit_from(
                s,
                i as nat,
                max_nodes as nat,
                *current_count as nat,
                ast_views(kept@),
            ),
        invariant
            i <= node.children@.len(),
            s == ast_views(node.children@),
            s == node@.children,
            c0 == *old(current_count) + 1,
            *old(current_count) + node_count(node@) <= usize::MAX,
            c0 <= *current_count <= c0 + nodes_count(s.subrange(0, i as int)),
            nodes_count(s.subrange(0, s.len() as int)) == nodes_count(s),
        ensures
            limit_from(s, 0, max_nodes as nat, c0, Seq::empty()) == (
                ast_views(kept@),
                *current_count as nat,
            ),
            *current_count <= c0 + nodes_count(s),
        decreases node.children@.len() - i,
    {
        proof {
            assert(decreases_to!(node => node.children@[i as int]));
            assert(s.subrange(0, i + 1).subrange(0, i as int) =~= s.subrange(0, i as int));
            lemma_nodes_count_prefix(s, i + 1);
        }
        assert(s.subrange(0, i + 1)[i as int] == s[i as int]);
        assert(nodes_count(s.subrange(0, i + 1)) == nodes_count(s.subrange(0, i as int)) + node_count(
            s[i as int],
        ));
        let f = limit_nodes(&node.children[i], max_nodes, current_count);
        let ghost before = kept@;
        match f {
            Some(x) => {
                kept.push(x);
                assert(ast_views(kept@) =~= ast_views(before).push(x@));
            },
            None => {},
        }
        i = i + 1;
        if max_nodes > 0 && *current_count >= max_nodes {
            proof {
                lemma_nodes_count_prefix(s, i as int);
            }
            break;
        }
    }
    proof {
        lemma_nodes_count_prefix(s, i as int);
        assert(s.subrange(0, s.len() as int) =~= s);
    }
    Some(node_with_children(node, kept))
}

/// The path of a node below a node with path `cur`: the kind at the root,
/// else `cur.kind`, with the field name as `cur:field.kind`.
pub open spec fn node_path(v: AstView, cur: Seq<char>) -> Seq<char> {
    if cur.len() == 0 {
        v.kind
    } else {
        match v.field_name {
            Some(f) => cur + ":"@ + f + "."@ + v.kind,
            None => cur + "."@ + v.kind,
        }
    }
}

/// The tree with the path of every node set, below a node with path `cur`.
pub open spec fn with_paths(v: AstView, cur: Seq<char>) -> AstView
    decreases v,
{
    let my = node_path(v, cur);
    AstView {
        path: Some(my),
        children: Seq::new(
            v.children.len(),
            |i: int|
                if 0 <= i < v.children.len() {
                    proof {
                        assert(decreases_to!(v => v.children[i]));
                    }
                    with_paths(v.children[i], my)
                } else {
                    v
                },
        ),
        ..v
    }
}

/// A copy of the tree with the path of every node set.
fn copy_with_paths(node: &AstNode, current_path: &[char]) -> (r: AstNode)
    ensures
        r@ == with_paths(node@, current_path@),
    decreases node,
{
    let mut my: Vec<char> = Vec::new();
    if current_path.len() == 0 {
        append_str(&mut my, node.kind.as_str());
    } else {
        append_chars(&mut my, current_path);
        match &node.field_name {
            Some(f) => {
                append_str(&mut my, ":");
                append_str(&mut my, f.as_str());
            },
            None => {},
        }
        append_str(&mut my, ".");
        append_str(&mut my, node.kind.as_str());
    }
    assert(my@ =~= node_path(node@, current_path@));
    proof {
        lemma_ast_view_children(*node);
    }
    let ghost want = with_paths(node@, current_path@).children;
    let mut children: Vec<AstNode> = Vec::new();
    let mut i: usize = 0;
    while i < node.children.len()
        invariant
            i <= node.children@.len(),
            my@ == node_path(node@, current_path@),
            want == with_paths(node@, current_path@).children,
            want.len() == node.children@.len(),
            ast_views(children@) == want.subrange(0, i as int),
        decreases node.children@.len() - i,
    {
        proof {
            assert(decreases_to!(node => node.children@[i as int]));
        }
        let c = copy_with_paths(&node.children[i], my.as_slice());
        let ghost before = children@;
        children.push(c);
        assert(ast_views(children@) =~= ast_views(before).push(c@));
        i = i + 1;
        assert(ast_views(children@) =~= want.subrange(0, i as int));
    }
    let r = AstNode {
        kind: node.kind.clone(),
        field_name: node.field_name.clone(),
        named: node.named,
        start_position: node.start_position,
        end_position: node.end_position,
        start_byte: node.start_byte,
        end_byte: node.end_byte,
        text: node.text.clone(),
        path: Some(string_of(my.as_slice())),
        children,
    };
    proof {
        lemma_ast_view_children(r);
        assert(want.subrange(0, want.len() as int) =~= want);
    }
    assert(r@ =~= with_paths(node@, current_path@));
    r
}

/// Sets the path of every node of the tree, below a node with path `current_path`.
pub fn generate_node_paths(node: &mut AstNode, current_path: &str)
    ensures
        final(node)@ == with_paths(old(node)@, current_path@),
{
    let cp = chars_of(current_path);
    let r = copy_with_paths(node, cp.as_slice());
    *node = r;
}

/// The nodes found by a path of kinds: where a node has the first kind, the
/// search goes on below it with the rest (a node with the last kind is found);
/// elsewhere it goes on below with the whole path.
pub open spec fn find_path(v: AstView, parts: Seq<Seq<char>>) -> Seq<AstView>
    decreases v, 1int,
{
    if parts.len() == 0 || v.kind != parts[0] {
        find_all(v.children, parts)
    } else if parts.len() == 1 {
        seq![v]
    } else {
        find_all(v.children, parts.subrange(1, parts.len() as int))
    }
}

pub open spec fn find_all(s: Seq<AstView>, parts: Seq<Seq<char>>) -> Seq<AstView>
    decreases s, 0int,
{
    if s.len() == 0 {
        Seq::empty()
    } else {
        find_all(s.subrange(0, s.len() - 1), parts) + find_path(s[s.len() - 1], parts)
    }
}

/// The nodes found by the path of kinds `parts[k..]`.
fn find_by_parts(node: &AstNode, parts: &Vec<Vec<char>>, k: usize) -> (r: Vec<AstNode>)
    requires
        k <= parts@.len(),
    ensures
        ast_views(r@) == find_path(node@, parts@.map_values(|x: Vec<char>| x@).subrange(k as int, parts@.len() as int)),
    decreases node,
{
    let ghost ps = parts@.map_values(|x: Vec<char>| x@).subrange(k as int, parts@.len() as int);
    let n = parts.len();
    let here = k < n && crate::text::chars_eq(chars_of(node.kind.as_str()).as_slice(), parts[k].as_slice());
    if here && k + 1 == n {
        let mut v: Vec<AstNode> = Vec::new();
        v.push(clone_node(node));
        assert(ast_views(v@) =~= seq![node@]);
        return v;
    }
    let next = if here {
        k + 1
    } else {
        k
    };
    let ghost qs = parts@.map_values(|x: Vec<char>| x@).subrange(next as int, parts@.len() as int);
    assert(here ==> qs =~= ps.subrange(1, ps.len() as int));
    proof {
        lemma_ast_view_children(*node);
    }
    let ghost s = ast_views(node.children@);
    let mut out: Vec<AstNode> = Vec::new();
    let mut i: usize = 0;
    while i < node.children.len()
        invariant
            i <= node.children@.len(),
            next <= parts@.len(),
            s == ast_views(node.children@),
            qs == parts@.map_values(|x: Vec<char>| x@).subrange(next as int, parts@.len() as int),
            ast_views(out@) == find_all(s.subrange(0, i as int), qs),
        decreases node.children@.len() - i,
    {
        proof {
            assert(decreases_to!(node => node.children@[i as int]));
            assert(s.subrange(0, i + 1).subrange(0, i as int) =~= s.subrange(0, i as int));
        }
        let mut found = find_by_parts(&node.children[i], parts, next);
        let ghost before = out@;
        let ghost add = found@;
        out.append(&mut found);
        assert(ast_views(out@) =~= ast_views(before) + ast_views(add));
        i = i + 1;
    }
    assert(s.subrange(0, s.len() as int) =~= s);
    out
}

/// Every node that a search by a non-empty path of kinds finds has the
/// path's last kind.
pub proof fn law_found_nodes_have_last_kind(v: AstView, parts: Seq<Seq<char>>)
    requires
        parts.len() > 0,
    ensures
        forall|i: int|
            0 <= i < find_path(v, parts).len() ==> (#[trigger] find_path(v, parts)[i]).kind
                == parts.last(),
    decreases v, 1int,
{
    if v.kind != parts[0] {
        lemma_found_all_have_last_kind(v.children, parts);
    } else if parts.len() == 1 {
    } else {
        let rest = parts.subrange(1, parts.len() as int);
        assert(rest.last() == parts.last());
        lemma_found_all_have_last_kind(v.children, rest);
    }
}

/// Every node that a search of a sequence of trees finds has the path's last
/// kind.
pub proof fn lemma_found_all_have_last_kind(s: Seq<AstView>, parts: Seq<Seq<char>>)
    requires
        parts.len() > 0,
    ensures
        forall|i: int|
            0 <= i < find_all(s, parts).len() ==> (#[trigger] find_all(s, parts)[i]).kind
                == parts.last(),
    decreases s, 0int,
{
    if s.len() > 0 {
        let pre = find_all(s.subrange(0, s.len() - 1), parts);
        let last = find_path(s[s.len() - 1], parts);
        lemma_found_all_have_last_kind(s.subrange(0, s.len() - 1), parts);
        law_found_nodes_have_last_kind(s[s.len() - 1], parts);
        assert forall|i: int| 0 <= i < find_all(s, parts).len() implies (#[trigger] find_all(
            s,
            parts,
        )[i]).kind == parts.last() by {
            assert(find_all(s, parts) == pre + last);
            if i < pre.len() {
                assert(find_all(s, parts)[i] == pre[i]);
            } else {
                assert(find_all(s, parts)[i] == last[i - pre.len()]);
            }
        }
    }
}

/// The nodes found by a path pattern of kinds separated by `/`, such as
/// `resource_declaration/object/property`.
pub fn find_nodes_by_path_pattern(node: &AstNode, pattern: &str) -> (r: Vec<AstNode>)
    ensures
        ast_views(r@) == find_path(node@, crate::text::spec_split_char(pattern@, '/')),
{
    let pv = chars_of(pattern);
    let parts = crate::text::split_char(pv.as_slice(), '/');
    assert(parts@.map_values(|x: Vec<char>| x@).subrange(0, parts@.len() as int) =~= parts@.map_values(
        |x: Vec<char>| x@,
    ));
    find_by_parts(node, &parts, 0)
}

// ---------------------------------------------------------------
// Simplified tree and text views of the structure
// ---------------------------------------------------------------

/// Whether every row of the tree is below the largest `usize`, so that a
/// line number (row + 1) can be written.
pub open spec fn rows_ok(v: AstView) -> bool
    decreases v, 1int,
{
    v.start.row < usize::MAX && rows_ok_all(v.children)
}

pub open spec fn rows_ok_all(s: Seq<AstView>) -> bool
    decreases s, 0int,
{
    s.len() == 0 || (rows_ok_all(s.subrange(0, s.len() - 1)) && rows_ok(s[s.len() - 1]))
}

pub proof fn lemma_rows_ok_in(s: Seq<AstView>, i: int)
    requires
        rows_ok_all(s),
        0 <= i < s.len(),
    ensures
        rows_ok(s[i]),
    decreases s.len(),
{
    if i < s.len() - 1 {
        lemma_rows_ok_in(s.subrange(0, s.len() - 1), i);
    }
}

/// A node of the simplified tree.
#[derive(Debug)]
pub struct SimpleTreeNode {
    pub kind: String,
    pub field: Option<String>,
    /// The line, counted from one
    pub line: usize,
    pub text: Option<String>,
    pub children: Vec<SimpleTreeNode>,
}

/// The content of a `SimpleTreeNode`.
pub struct SimpleView {
    pub kind: Seq<char>,
    pub field: Option<Seq<char>>,
    pub line: usize,
    pub text: Option<Seq<char>>,
    pub children: Seq<SimpleView>,
}

pub open spec fn simple_view(n: SimpleTreeNode) -> SimpleView
    decreases n,
{
    SimpleView {
        kind: n.kind@,
        field: opt_text(n.field),
        line: n.line,
        text: opt_text(n.text),
        children: Seq::new(
            n.children@.len(),
            |i: int|
                if 0 <= i < n.children@.len() {
                    proof {
                        assert(decreases_to!(n => n.children@[i]));
                    }
                    simple_view(n.children@[i])
                } else {
                    SimpleView {
                        kind: Seq::empty(),
                        field: None,
                        line: 0,
                        text: None,
                        children: Seq::empty(),
                    }
                },
        ),
    }
}

impl View for SimpleTreeNode {
    type V = SimpleView;

    open spec fn view(&self) -> SimpleView {
        simple_view(*self)
    }
}

/// At most the first fifty characters of a text.
pub open spec fn first_fifty(t: Seq<char>) -> Seq<char> {
    if t.len() <= 50 {
        t
    } else {
        t.subrange(0, 50)
    }
}

/// The simplified tree: kind, field, line (counted from one) and, if asked
/// for, the first fifty characters of the text.
pub open spec fn simple_of(v: AstView, include_text: bool) -> SimpleView
    decreases v,
{
    SimpleView {
        kind: v.kind,
        field: v.field_name,
        line: (v.start.row + 1) as usize,
        text: if include_text {
            Some(first_fifty(v.text))
        } else {
            None
        },
        children: Seq::new(
            v.children.len(),
            |i: int|
                if 0 <= i < v.children.len() {
                    proof {
                        assert(decreases_to!(v => v.children[i]));
                    }
                    simple_of(v.children[i], include_text)
                } else {
                    SimpleView {
                        kind: Seq::empty(),
                        field: None,
                        line: 0,
                        text: None,
                        children: Seq::empty(),
                    }
                },
        ),
    }
}

/// The simplified tree of the node.
pub fn to_simple_tree(node: &AstNode, include_text: bool) -> (r: SimpleTreeNode)
    requires
        rows_ok(node@),
    ensures
        r@ == simple_of(node@, include_text),
    decreases node,
{
    proof {
        lemma_ast_view_children(*node);
    }
    let ghost want = simple_of(node@, include_text).children;
    let mut children: Vec<SimpleTreeNode> = Vec::new();
    let mut i: usize = 0;
    while i < node.children.len()
        invariant
            i <= node.children@.len(),
            rows_ok(node@),
            want == simple_of(node@, include_text).children,
            want.len() == node.children@.len(),
            Seq::new(children@.len(), |j: int| simple_view(children@[j])) == want.subrange(0, i as int),
        decreases node.children@.len() - i,
    {
        proof {
            assert(decreases_to!(node => node.children@[i as int]));
            lemma_rows_ok_in(node@.children, i as int);
        }
        let c = to_simple_tree(&node.children[i], include_text);
        let ghost before = children@;
        children.push(c);
        assert(Seq::new(children@.len(), |j: int| simple_view(children@[j])) =~= Seq::new(
            before.len(),
            |j: int| simple_view(before[j]),
        ).push(c@));
        i = i + 1;
        assert(Seq::new(children@.len(), |j: int| simple_view(children@[j])) =~= want.subrange(
            0,
            i as int,
        ));
    }
    let text = if include_text {
        let tv = chars_of(node.text.as_str());
        let t = if tv.len() <= 50 {
            tv
        } else {
            crate::text::slice_chars(tv.as_slice(), 0, 50)
        };
        Some(string_of(t.as_slice()))
    } else {
        None
    };
    let r = SimpleTreeNode {
        kind: node.kind.clone(),
        field: node.field_name.clone(),
        line: node.start_position.row + 1,
        text,
        children,
    };
    assert(want.subrange(0, want.len() as int) =~= want);
    assert(r@.children =~= want);
    assert(r@ =~= simple_of(node@, include_text));
    r
}

/// A node as the structure view names it: `field:kind (line)`.
pub open spec fn display_name(v: AstView) -> Seq<char> {
    match v.field_name {
        Some(f) => f + ":"@ + v.kind + " ("@ + nat_decimal((v.start.row + 1) as nat) + ")"@,
        None => v.kind + " ("@ + nat_decimal((v.start.row + 1) as nat) + ")"@,
    }
}

/// The lines of the structure view of a tree drawn at `depth`, down to
/// `depth_limit` levels (no limit when it is zero).
pub open spec fn structure_lines(
    v: AstView,
    depth: nat,
    depth_limit: nat,
    prefix: Seq<char>,
    is_last: bool,
) -> Seq<Seq<char>>
    decreases v, 1int, 0int,
{
    if depth_limit > 0 && depth >= depth_limit {
        Seq::empty()
    } else {
        seq![prefix + (if is_last { "└── "@ } else { "├── "@ }) + display_name(v)]
            + structure_lines_from(
            v.children,
            0,
            depth + 1,
            depth_limit,
            prefix + (if is_last { "    "@ } else { "│   "@ }),
        )
    }
}

pub open spec fn structure_lines_from(
    s: Seq<AstView>,
    k: nat,
    depth: nat,
    depth_limit: nat,
    prefix: Seq<char>,
) -> Seq<Seq<char>>
    decreases s, 0int, s.len() - k,
{
    if k >= s.len() {
        Seq::empty()
    } else {
        structure_lines(s[k as int], depth, depth_limit, prefix, k == s.len() - 1)
            + structure_lines_from(s, k + 1, depth, depth_limit, prefix)
    }
}

/// The text of a line number, counted from one.
fn line_text(row: usize) -> (r: Vec<char>)
    requires
        row < usize::MAX,
    ensures
        r@ == nat_decimal((row + 1) as nat),
{
    nat_decimal_exec((row + 1) as u64)
}

fn display_name_exec(node: &AstNode) -> (r: Vec<char>)
    requires
        node.start_position.row < usize::MAX,
    ensures
        r@ == display_name(node@),
{
    let mut out: Vec<char> = Vec::new();
    match &node.field_name {
        Some(f) => {
            append_str(&mut out, f.as_str());
            append_str(&mut out, ":");
        },
        None => {},
    }
    append_str(&mut out, node.kind.as_str());
    append_str(&mut out, " (");
    append_chars(&mut out, line_text(node.start_position.row).as_slice());
    append_str(&mut out, ")");
    assert(out@ =~= display_name(node@));
    out
}

/// Appends the lines of the structure view of the tree.
pub fn visualize_tree_structure(
    out: &mut Vec<String>,
    node: &AstNode,
    depth: usize,
    depth_limit: usize,
    prefix: &[char],
    is_last: bool,
)
    requires
        rows_ok(node@),
        depth + tree_depth(node@) <= usize::MAX,
    ensures
        final(out)@.map_values(|s: String| s@) == old(out)@.map_values(|s: String| s@)
            + structure_lines(node@, depth as nat, depth_limit as nat, prefix@, is_last),
    decreases node,
{
    if depth_limit > 0 && depth >= depth_limit {
        assert(out@.map_values(|s: String| s@) =~= old(out)@.map_values(|s: String| s@)
            + structure_lines(node@, depth as nat, depth_limit as nat, prefix@, is_last));
        return;
    }
    let mut line: Vec<char> = Vec::new();
    append_chars(&mut line, prefix);
    if is_last {
        append_str(&mut line, "└── ");
    } else {
        append_str(&mut line, "├── ");
    }
    append_chars(&mut line, display_name_exec(node).as_slice());
    let ghost before = out@;
    out.push(string_of(line.as_slice()));
    let mut next: Vec<char> = Vec::new();
    append_chars(&mut next, prefix);
    if is_last {
        append_str(&mut next, "    ");
    } else {
        append_str(&mut next, "│   ");
    }
    proof {
        lemma_ast_view_children(*node);
    }
    let ghost s = node@.children;
    let ghost head = old(out)@.map_values(|x: String| x@) + seq![line@];
    assert(out@.map_values(|x: String| x@) =~= head);
    let n = node.children.len();
    let mut i: usize = 0;
    while i < n
        invariant
            i <= n,
            n == s.len(),
            s == node@.children,
            s == ast_views(node.children@),
            rows_ok(node@),
            depth + tree_depth(node@) <= usize::MAX,
            structure_lines(node@, depth as nat, depth_limit as nat, prefix@, is_last) == seq![line@]
                + structure_lines_from(s, 0, (depth + 1) as nat, depth_limit as nat, next@),
            head + structure_lines_from(s, 0, (depth + 1) as nat, depth_limit as nat, next@)
                == out@.map_values(|x: String| x@) + structure_lines_from(
                s,
                i as nat,
                (depth + 1) as nat,
                depth_limit as nat,
                next@,
            ),
        decreases n - i,
    {
        proof {
            assert(decreases_to!(node => node.children@[i as int]));
            lemma_rows_ok_in(s, i as int);
            lemma_depth_in(s, i as int);
        }
        let ghost mid = out@.map_values(|x: String| x@);
        visualize_tree_structure(out, &node.children[i], depth + 1, depth_limit, next.as_slice(), i + 1 == n);
        i = i + 1;
    }
    assert(out@.map_values(|x: String| x@) =~= old(out)@.map_values(|x: String| x@)
        + structure_lines(node@, depth as nat, depth_limit as nat, prefix@, is_last));
}

/// A top-level node as the brief view names it: `field:kind (Line n)`.
pub open spec fn brief_name(v: AstView) -> Seq<char> {
    match v.field_name {
        Some(f) => f + ":"@ + v.kind + " (Line "@ + nat_decimal((v.start.row + 1) as nat) + ")"@,
        None => v.kind + " (Line "@ + nat_decimal((v.start.row + 1) as nat) + ")"@,
    }
}

/// The brief lines of the top-level nodes from the `k`-th on: at most
/// fifteen, then a line counting the rest.
pub open spec fn brief_children(s: Seq<AstView>, k: nat) -> Seq<Seq<char>>
    decreases s.len() - k,
{
    if k >= s.len() {
        Seq::empty()
    } else if k >= 15 {
        seq!["└── ... and "@ + nat_decimal((s.len() - 15) as nat) + " more top-level nodes"@]
    } else {
        seq![(if k == s.len() - 1 || k == 14 { "└── "@ } else { "├── "@ }) + brief_name(s[k as int])]
            + brief_children(s, k + 1)
    }
}

/// The messages of the brief structure view: a heading, the root with its
/// number of nodes, the top-level nodes, and an empty line.
pub open spec fn brief_lines(v: AstView) -> Seq<Seq<char>> {
    seq![
        "\nBrief AST Structure:"@,
        "-----------------"@,
        "Root: "@ + v.kind + " ("@ + nat_decimal(node_count(v)) + " nodes)"@,
    ] + brief_children(v.children, 0) + seq![""@]
}

fn brief_name_exec(node: &AstNode) -> (r: Vec<char>)
    requires
        node.start_position.row < usize::MAX,
    ensures
        r@ == brief_name(node@),
{
    let mut out: Vec<char> = Vec::new();
    match &node.field_name {
        Some(f) => {
            append_str(&mut out, f.as_str());
            append_str(&mut out, ":");
        },
        None => {},
    }
    append_str(&mut out, node.kind.as_str());
    append_str(&mut out, " (Line ");
    append_chars(&mut out, line_text(node.start_position.row).as_slice());
    append_str(&mut out, ")");
    assert(out@ =~= brief_name(node@));
    out
}

/// The messages of the brief structure view of the tree.
pub fn generate_brief_structure(node: &AstNode) -> (r: Vec<String>)
    requires
        rows_ok(node@),
        node_count(node@) <= usize::MAX,
    ensures
        r@.map_values(|s: String| s@) == brief_lines(node@),
{
    let mut root: Vec<char> = Vec::new();
    append_str(&mut root, "Root: ");
    append_str(&mut root, node.kind.as_str());
    append_str(&mut root, " (");
    append_chars(&mut root, nat_decimal_exec(count_nodes(node) as u64).as_slice());
    append_str(&mut root, " nodes)");
    let l1 = chars_of("\nBrief AST Structure:");
    let l2 = chars_of("-----------------");
    let ghost first = seq![l1@, l2@, root@];
    let mut lines: Vec<Vec<char>> = Vec::new();
    lines.push(l1);
    lines.push(l2);
    lines.push(root);
    assert(crate::exports::yaml::chars_list(lines@) =~= first);
    assert(first =~= seq![
        "\nBrief AST Structure:"@,
        "-----------------"@,
        "Root: "@ + node@.kind + " ("@ + nat_decimal(node_count(node@)) + " nodes)"@,
    ]);
    proof {
        lemma_ast_view_children(*node);
    }
    let ghost s = node@.children;
    let ghost head = crate::exports::yaml::chars_list(lines@);
    let n = node.children.len();
    let mut i: usize = 0;
    while i < n
        invariant_except_break
            head + brief_children(s, 0) == crate::exports::yaml::chars_list(lines@) + brief_children(s, i as nat),
        invariant
            i <= n,
            n == s.len(),
            s == node@.children,
            s == ast_views(node.children@),
            rows_ok(node@),
        ensures
            head + brief_children(s, 0) == crate::exports::yaml::chars_list(lines@),
        decreases n - i,
    {
        let ghost before = lines@;
        if i >= 15 {
            let mut l: Vec<char> = Vec::new();
            append_str(&mut l, "└── ... and ");
            append_chars(&mut l, nat_decimal_exec((n - 15) as u64).as_slice());
            append_str(&mut l, " more top-level nodes");
            lines.push(l);
            assert(crate::exports::yaml::chars_list(lines@) =~= crate::exports::yaml::chars_list(before).push(l@));
            break;
        }
        proof {
            lemma_rows_ok_in(s, i as int);
        }
        let mut l: Vec<char> = Vec::new();
        if i == n - 1 || i == 14 {
            append_str(&mut l, "└── ");
        } else {
            append_str(&mut l, "├── ");
        }
        append_chars(&mut l, brief_name_exec(&node.children[i]).as_slice());
        lines.push(l);
        assert(crate::exports::yaml::chars_list(lines@) =~= crate::exports::yaml::chars_list(before).push(l@));
        i = i + 1;
    }
    let ghost before_end = lines@;
    let empty_line: Vec<char> = Vec::new();
    lines.push(empty_line);
    assert(""@ =~= Seq::<char>::empty()) by {
        reveal_strlit("");
    }
    assert(crate::exports::yaml::chars_list(lines@) =~= crate::exports::yaml::chars_list(before_end).push(""@));
    let mut out: Vec<String> = Vec::new();
    let mut k: usize = 0;
    while k < lines.len()
        invariant
            k <= lines@.len(),
            out@.map_values(|x: String| x@) == crate::exports::yaml::chars_list(lines@).subrange(0, k as int),
        decreases lines@.len() - k,
    {
        let ghost b = out@;
        out.push(string_of(lines[k].as_slice()));
        assert(out@.map_values(|x: String| x@) =~= b.map_values(|x: String| x@).push(lines@[k as int]@));
        k = k + 1;
    }
    assert(crate::exports::yaml::chars_list(lines@).subrange(0, lines@.len() as int) =~= crate::exports::yaml::chars_list(lines@));
    assert(out@.map_values(|x: String| x@) =~= brief_lines(node@));
    out
}

// ---------------------------------------------------------------
// Counts
// ---------------------------------------------------------------

/// The kinds of the nodes of a tree, in preorder.
pub open spec fn kinds(v: AstView) -> Seq<Seq<char>>
    decreases v, 1int,
{
    seq![v.kind] + kinds_all(v.children)
}

pub open spec fn kinds_all(s: Seq<AstView>) -> Seq<Seq<char>>
    decreases s, 0int,
{
    if s.len() == 0 {
        Seq::empty()
    } else {
        kinds_all(s.subrange(0, s.len() - 1)) + kinds(s[s.len() - 1])
    }
}

/// The field names of the nodes of a tree that have one, in preorder.
pub open spec fn field_names(v: AstView) -> Seq<Seq<char>>
    decreases v, 1int,
{
    (match v.field_name {
        Some(f) => seq![f],
        None => Seq::empty(),
    }) + field_names_all(v.children)
}

pub open spec fn field_names_all(s: Seq<AstView>) -> Seq<Seq<char>>
    decreases s, 0int,
{
    if s.len() == 0 {
        Seq::empty()
    } else {
        field_names_all(s.subrange(0, s.len() - 1)) + field_names(s[s.len() - 1])
    }
}

/// The start rows of the nodes of a tree, in preorder.
pub open spec fn start_rows(v: AstView) -> Seq<usize>
    decreases v, 1int,
{
    seq![v.start.row] + start_rows_all(v.children)
}

pub open spec fn start_rows_all(s: Seq<AstView>) -> Seq<usize>
    decreases s, 0int,
{
    if s.len() == 0 {
        Seq::empty()
    } else {
        start_rows_all(s.subrange(0, s.len() - 1)) + start_rows(s[s.len() - 1])
    }
}

/// Counts of keys in the order in which they first occur.
pub open spec fn tally(keys: Seq<Seq<char>>) -> Seq<(Seq<char>, usize)>
    decreases keys.len(),
{
    if keys.len() == 0 {
        Seq::empty()
    } else {
        let m = tally(keys.drop_last());
        let k = keys.last();
        put(
            m,
            k,
            match get_key(m, k) {
                Some(c) => (c + 1) as usize,
                None => 1usize,
            },
        )
    }
}

/// Whether every count is at most `b`.
pub open spec fn counts_at_most(m: Seq<(Seq<char>, usize)>, b: nat) -> bool {
    forall|i: int| 0 <= i < m.len() ==> m[i].1 <= b
}

pub proof fn lemma_tally_bounded(keys: Seq<Seq<char>>)
    ensures
        counts_at_most(tally(keys), keys.len()),
    decreases keys.len(),
{
    if keys.len() > 0 {
        let m = tally(keys.drop_last());
        lemma_tally_bounded(keys.drop_last());
        let k = keys.last();
        lemma_key_pos_some(m, k);
    }
}

/// The kinds and the field names of the nodes of a tree, in preorder.
fn collect_names(node: &AstNode, kinds_out: &mut Vec<String>, fields_out: &mut Vec<String>)
    ensures
        final(kinds_out)@.map_values(|s: String| s@) == old(kinds_out)@.map_values(|s: String| s@)
            + kinds(node@),
        final(fields_out)@.map_values(|s: String| s@) == old(fields_out)@.map_values(|s: String| s@)
            + field_names(node@),
    decreases node,
{
    let ghost k0 = kinds_out@.map_values(|s: String| s@);
    let ghost f0 = fields_out@.map_values(|s: String| s@);
    kinds_out.push(node.kind.clone());
    assert(kinds_out@.map_values(|s: String| s@) =~= k0.push(node.kind@));
    match &node.field_name {
        Some(f) => {
            fields_out.push(f.clone());
            assert(fields_out@.map_values(|s: String| s@) =~= f0.push(f@));
        },
        None => {
            assert(fields_out@.map_values(|s: String| s@) =~= f0);
        },
    }
    proof {
        lemma_ast_view_children(*node);
    }
    let ghost s = node@.children;
    let ghost k1 = kinds_out@.map_values(|s: String| s@);
    let ghost f1 = fields_out@.map_values(|s: String| s@);
    let mut i: usize = 0;
    while i < node.children.len()
        invariant
            i <= node.children@.len(),
            s == ast_views(node.children@),
            kinds_out@.map_values(|s: String| s@) == k1 + kinds_all(s.subrange(0, i as int)),
            fields_out@.map_values(|s: String| s@) == f1 + field_names_all(s.subrange(0, i as int)),
        decreases node.children@.len() - i,
    {
        proof {
            assert(decreases_to!(node => node.children@[i as int]));
            assert(s.subrange(0, i + 1).subrange(0, i as int) =~= s.subrange(0, i as int));
        }
        collect_names(&node.children[i], kinds_out, fields_out);
        i = i + 1;
    }
    assert(s.subrange(0, s.len() as int) =~= s);
    assert(kinds_out@.map_values(|s: String| s@) =~= k0 + kinds(node@));
    assert(fields_out@.map_values(|s: String| s@) =~= f0 + field_names(node@));
}

/// The counts of the keys, in the order in which they first occur.
fn tally_keys(keys: &Vec<String>) -> (r: OrderedMap<usize>)
    ensures
        kv_view(r@) == tally(keys@.map_values(|s: String| s@)),
{
    let ghost ks = keys@.map_values(|s: String| s@);
    let mut m: OrderedMap<usize> = OrderedMap::new();
    assert(kv_view(m@) =~= Seq::<(Seq<char>, usize)>::empty());
    let mut i: usize = 0;
    while i < keys.len()
        invariant
            i <= keys@.len(),
            ks == keys@.map_values(|s: String| s@),
            kv_view(m@) == tally(ks.subrange(0, i as int)),
        decreases keys@.len() - i,
    {
        proof {
            lemma_tally_bounded(ks.subrange(0, i as int));
            lemma_kv_view_lookup(m@, keys@[i as int]@);
            lemma_key_pos_some(kv_view(m@), keys@[i as int]@);
        }
        let c: usize = match m.get(keys[i].as_str()) {
            Some(c) => *c,
            None => 0,
        };
        let k = keys[i].clone();
        let ghost before = m@;
        m.insert(k, c + 1);
        proof {
            lemma_kv_view_insert(before, k, (c + 1) as usize);
            assert(ks.subrange(0, i + 1).drop_last() =~= ks.subrange(0, i as int));
        }
        i = i + 1;
    }
    assert(ks.subrange(0, ks.len() as int) =~= ks);
    m
}

/// How many nodes of each kind the tree has, in the order in which the kinds
/// first occur in preorder.
pub fn count_node_types(node: &AstNode) -> (r: OrderedMap<usize>)
    ensures
        kv_view(r@) == tally(kinds(node@)),
{
    let mut ks: Vec<String> = Vec::new();
    let mut fs: Vec<String> = Vec::new();
    assert(ks@.map_values(|s: String| s@) =~= Seq::<Seq<char>>::empty());
    assert(fs@.map_values(|s: String| s@) =~= Seq::<Seq<char>>::empty());
    collect_names(node, &mut ks, &mut fs);
    assert(ks@.map_values(|s: String| s@) =~= kinds(node@));
    tally_keys(&ks)
}

/// How often each field name occurs in the tree, in the order in which the
/// names first occur in preorder.
pub fn count_field_names(node: &AstNode) -> (r: OrderedMap<usize>)
    ensures
        kv_view(r@) == tally(field_names(node@)),
{
    let mut ks: Vec<String> = Vec::new();
    let mut fs: Vec<String> = Vec::new();
    assert(ks@.map_values(|s: String| s@) =~= Seq::<Seq<char>>::empty());
    assert(fs@.map_values(|s: String| s@) =~= Seq::<Seq<char>>::empty());
    collect_names(node, &mut ks, &mut fs);
    assert(fs@.map_values(|s: String| s@) =~= field_names(node@));
    tally_keys(&fs)
}

/// The position of row `r` among the counted rows.
pub open spec fn row_pos(m: Seq<(usize, usize)>, r: usize) -> Option<int>
    decreases m.len(),
{
    if m.len() == 0 {
        None
    } else {
        match row_pos(m.drop_last(), r) {
            Some(i) => Some(i),
            None => if m.last().0 == r {
                Some(m.len() - 1)
            } else {
                None
            },
        }
    }
}

/// Counts of rows in the order in which they first occur.
pub open spec fn tally_rows(rows: Seq<usize>) -> Seq<(usize, usize)>
    decreases rows.len(),
{
    if rows.len() == 0 {
        Seq::empty()
    } else {
        let m = tally_rows(rows.drop_last());
        let r = rows.last();
        match row_pos(m, r) {
            Some(i) => m.update(i, (r, (m[i].1 + 1) as usize)),
            None => m.push((r, 1usize)),
        }
    }
}

pub proof fn lemma_row_pos(m: Seq<(usize, usize)>, r: usize)
    ensures
        row_pos(m, r) matches Some(i) ==> 0 <= i < m.len() && m[i].0 == r && forall|j: int|
            0 <= j < i ==> m[j].0 != r,
        row_pos(m, r) is None ==> forall|j: int| 0 <= j < m.len() ==> m[j].0 != r,
    decreases m.len(),
{
    if m.len() > 0 {
        let t = m.drop_last();
        lemma_row_pos(t, r);
        assert(forall|j: int| 0 <= j < t.len() ==> t[j] == m[j]);
    }
}

pub proof fn lemma_tally_rows_bounded(rows: Seq<usize>)
    ensures
        forall|i: int| 0 <= i < tally_rows(rows).len() ==> tally_rows(rows)[i].1 <= rows.len(),
    decreases rows.len(),
{
    if rows.len() > 0 {
        lemma_tally_rows_bounded(rows.drop_last());
        lemma_row_pos(tally_rows(rows.drop_last()), rows.last());
    }
}

/// The start rows of the nodes of a tree, in preorder.
fn collect_rows(node: &AstNode, out: &mut Vec<usize>)
    ensures
        final(out)@ == old(out)@ + start_rows(node@),
    decreases node,
{
    let ghost r0 = out@;
    out.push(node.start_position.row);
    proof {
        lemma_ast_view_children(*node);
    }
    let ghost s = node@.children;
    let ghost r1 = out@;
    let mut i: usize = 0;
    while i < node.children.len()
        invariant
            i <= node.children@.len(),
            s == ast_views(node.children@),
            out@ == r1 + start_rows_all(s.subrange(0, i as int)),
        decreases node.children@.len() - i,
    {
        proof {
            assert(decreases_to!(node => node.children@[i as int]));
            assert(s.subrange(0, i + 1).subrange(0, i as int) =~= s.subrange(0, i as int));
        }
        collect_rows(&node.children[i], out);
        i = i + 1;
    }
    assert(s.subrange(0, s.len() as int) =~= s);
    assert(out@ =~= r0 + start_rows(node@));
}

/// How many nodes start on each row, in the order in which the rows first
/// occur in preorder.
pub fn count_nodes_by_line(node: &AstNode) -> (r: Vec<(usize, usize)>)
    ensures
        r@ == tally_rows(start_rows(node@)),
{
    let mut rows: Vec<usize> = Vec::new();
    collect_rows(node, &mut rows);
    assert(rows@ =~= start_rows(node@));
    let mut m: Vec<(usize, usize)> = Vec::new();
    let mut i: usize = 0;
    while i < rows.len()
        invariant
            i <= rows@.len(),
            m@ == tally_rows(rows@.subrange(0, i as int)),
        decreases rows@.len() - i,
    {
        proof {
            lemma_tally_rows_bounded(rows@.subrange(0, i as int));
            lemma_row_pos(m@, rows@[i as int]);
            assert(rows@.subrange(0, i + 1).drop_last() =~= rows@.subrange(0, i as int));
        }
        let r = rows[i];
        let mut j: usize = 0;
        while j < m.len() && m[j].0 != r
            invariant
                j <= m@.len(),
                forall|q: int| 0 <= q < j ==> m@[q].0 != r,
            decreases m@.len() - j,
        {
            j = j + 1;
        }
        if j < m.len() {
            let c = m[j].1;
            m.set(j, (r, c + 1));
        } else {
            m.push((r, 1));
        }
        i = i + 1;
    }
    assert(rows@.subrange(0, rows@.len() as int) =~= rows@);
    m
}

// ---------------------------------------------------------------
// Reading a tree-sitter tree
// ---------------------------------------------------------------

/// Whether the bytes `start..end` are a non-empty range inside the source's
/// UTF-8 encoding.
pub open spec fn in_source(src: Seq<char>, start: usize, end: usize) -> bool {
    start < end && end <= encode_utf8(src).len()
}

/// Whether `start` and `end` both fall between two characters of the source.
pub open spec fn cut_between_chars(src: Seq<char>, start: usize, end: usize) -> bool {
    &&& is_char_boundary(encode_utf8(src), start as int)
    &&& is_char_boundary(encode_utf8(src), end as int)
}

/// The text that the bytes `start..end` of the source's encoding spell.
pub open spec fn source_slice(src: Seq<char>, start: usize, end: usize) -> Seq<char> {
    decode_utf8(encode_utf8(src).subrange(start as int, end as int))
}

/// Whether a node spanning `start..end` has its text taken from the source:
/// in compact mode only when it is at most twenty bytes long.
pub open spec fn text_taken(src: Seq<char>, start: usize, end: usize, compact: bool) -> bool {
    if compact {
        end - start <= 20 && in_source(src, start, end)
    } else {
        in_source(src, start, end)
    }
}

/// The text of a node spanning `start..end`: its source text where that is
/// taken; otherwise, in compact mode, `... (N bytes)` for a named node and
/// nothing for an anonymous one.
pub open spec fn shown_text(
    src: Seq<char>,
    start: usize,
    end: usize,
    named: bool,
    compact: bool,
) -> Seq<char> {
    if text_taken(src, start, end, compact) {
        source_slice(src, start, end)
    } else if compact && named {
        "... ("@ + nat_decimal((end - start) as nat) + " bytes)"@
    } else {
        Seq::empty()
    }
}

/// The bytes `start..end` of the source, as text.
pub(crate) fn source_text(source: &str, start: usize, end: usize) -> (r: String)
    requires
        start < end,
        end <= encode_utf8(source@).len(),
        cut_between_chars(source@, start, end),
    ensures
        r@ == source_slice(source@, start, end),
{
    let ghost bytes = encode_utf8(source@);
    proof {
        encode_utf8_valid_utf8(source@);
    }
    let (head, _) = source.split_at(end);
    proof {
        let prefix = bytes.subrange(0, end as int);
        assert(head.spec_bytes() == prefix);
        valid_utf8_split(bytes, end as int);
        if start > 0 {
            is_char_boundary_iff_not_is_continuation_byte(bytes, start as int);
            is_char_boundary_iff_not_is_continuation_byte(prefix, start as int);
            assert(prefix[start as int] == bytes[start as int]);
        }
    }
    let (_, piece) = head.split_at(start);
    proof {
        assert(piece.spec_bytes() =~= bytes.subrange(start as int, end as int));
        encode_utf8_decode_utf8(piece@);
    }
    string_of(chars_of(piece).as_slice())
}

/// The text that the export shows for a node spanning the bytes
/// `start_byte..end_byte` of the source.
pub fn node_text(
    source: &str,
    start_byte: usize,
    end_byte: usize,
    named: bool,
    compact_mode: bool,
) -> (r: String)
    requires
        start_byte <= end_byte,
        text_taken(source@, start_byte, end_byte, compact_mode) ==> cut_between_chars(
            source@,
            start_byte,
            end_byte,
        ),
    ensures
        r@ == shown_text(source@, start_byte, end_byte, named, compact_mode),
{
    let len = source.as_bytes().len();
    let width = end_byte - start_byte;
    let inside = start_byte < end_byte && end_byte <= len;
    let taken = if compact_mode {
        width <= 20 && inside
    } else {
        inside
    };
    if taken {
        source_text(source, start_byte, end_byte)
    } else if compact_mode && named {
        let mut out: Vec<char> = Vec::new();
        append_str(&mut out, "... (");
        append_chars(&mut out, nat_decimal_exec(width as u64).as_slice());
        append_str(&mut out, " bytes)");
        assert(out@ =~= "... ("@ + nat_decimal(width as nat) + " bytes)"@);
        string_of(out.as_slice())
    } else {
        String::new()
    }
}

/// Whether a node's text can be read: its range does not end before it
/// starts, and a range inside the source falls between characters.
pub open spec fn text_readable(src: Seq<char>, start: usize, end: usize) -> bool {
    &&& start <= end
    &&& (start < end && end <= encode_utf8(src).len()) ==> cut_between_chars(src, start, end)
}

/// The children's field names as the export keeps them: each child's own,
/// where the first child has one; none otherwise.
pub open spec fn fields_kept(cs: Seq<AstView>) -> Seq<AstView> {
    if cs.len() > 0 && cs[0].field_name is None {
        Seq::new(cs.len(), |i: int| AstView { field_name: None, ..cs[i] })
    } else {
        cs
    }
}

/// The tree below the node at preorder position `idx` of the parse of `src`
/// as the export presents it, reading down `fuel` levels: kind, whether it is
/// named, positions, byte range, `shown_text`, no path and no field name of
/// its own, and its children with their field names (`fields_kept`). `None`
/// where the parse gives no such node, a text cannot be read, or the fuel
/// runs out.
pub open spec fn ast_at(src: Seq<char>, idx: nat, fuel: nat, compact: bool) -> Option<AstView>
    decreases fuel, 0int, 0int,
{
    match bicep_node_at(src, idx) {
        None => None,
        Some(f) => {
            let end: nat = idx + f.descendants as nat;
            if !text_readable(src, f.start_byte, f.end_byte) || end > usize::MAX {
                None
            } else if idx + 1 < end && fuel == 0 {
                None
            } else {
                let cs = if idx + 1 < end {
                    ast_children(src, idx + 1nat, end, (fuel - 1) as nat, compact)
                } else {
                    Some(Seq::empty())
                };
                match cs {
                    Some(c) => Some(
                        AstView {
                            kind: f.kind,
                            field_name: None,
                            named: f.named,
                            start: f.start,
                            end: f.end,
                            start_byte: f.start_byte,
                            end_byte: f.end_byte,
                            text: shown_text(src, f.start_byte, f.end_byte, f.named, compact),
                            path: None,
                            children: fields_kept(c),
                        },
                    ),
                    None => None,
                }
            }
        },
    }
}

/// The trees of the children that start at preorder positions from `cur` on,
/// up to `end`, each with the field name under which its parent holds it.
pub open spec fn ast_children(
    src: Seq<char>,
    cur: nat,
    end: nat,
    fuel: nat,
    compact: bool,
) -> Option<Seq<AstView>>
    decreases fuel, 1int, end - cur,
{
    if cur >= end {
        Some(Seq::empty())
    } else {
        match (ast_at(src, cur, fuel, compact), bicep_node_at(src, cur)) {
            (Some(c), Some(f)) => {
                let cf = AstView { field_name: f.field_name, ..c };
                if f.descendants == 0 || cur + f.descendants > usize::MAX {
                    None
                } else if cur + f.descendants >= end {
                    Some(seq![cf])
                } else {
                    match ast_children(src, cur + f.descendants as nat, end, fuel, compact) {
                        Some(rest) => Some(seq![cf] + rest),
                        None => None,
                    }
                }
            },
            _ => None,
        }
    }
}

/// The tree that the Bicep grammar gives for `src`, as the export presents
/// it, read down as many levels as the tree has nodes.
pub open spec fn ast_model(src: Seq<char>, compact: bool) -> Option<AstView> {
    match bicep_node_at(src, 0) {
        Some(f) => ast_at(src, 0, f.descendants as nat, compact),
        None => None,
    }
}

/// Clears the children's field names where the first child has none.
fn keep_fields(children: &mut Vec<AstNode>)
    ensures
        ast_views(final(children)@) == fields_kept(ast_views(old(children)@)),
{
    if children.len() > 0 && children[0].field_name.is_none() {
        let ghost old_v = ast_views(children@);
        let mut i: usize = 0;
        while i < children.len()
            invariant
                i <= children@.len(),
                children@.len() == old_v.len(),
                old_v.len() > 0 && old_v[0].field_name is None,
                forall|j: int|
                    0 <= j < children@.len() ==> #[trigger] ast_view(children@[j]) == (if j < i {
                        AstView { field_name: None, ..old_v[j] }
                    } else {
                        old_v[j]
                    }),
            decreases children@.len() - i,
        {
            let mut c = children.remove(i);
            let ghost cv = ast_view(c);
            c.field_name = None;
            proof {
                lemma_ast_view_children(c);
            }
            children.insert(i, c);
            i = i + 1;
        }
        assert(ast_views(children@) =~= fields_kept(old_v));
    }
}

/// Reads the node at preorder position `idx` of the parse of `source` and,
/// down `fuel` levels, the nodes below it (`ast_at`); also the number of
/// nodes of its subtree and the field name under which its parent holds it.
fn ast_node_of(source: &str, idx: usize, fuel: usize, compact_mode: bool) -> (r: Option<
    (AstNode, usize, Option<String>),
>)
    ensures
        match r {
            Some((n, d, fname)) => {
                &&& ast_at(source@, idx as nat, fuel as nat, compact_mode) == Some(n@)
                &&& bicep_node_at(source@, idx as nat) matches Some(f) && f.descendants == d
                    && f.field_name == opt_text(fname)
            },
            None => ast_at(source@, idx as nat, fuel as nat, compact_mode) is None,
        },
    decreases fuel,
{
    let f = match ts_node_at(source, idx) {
        Some(f) => f,
        None => return None,
    };
    let start = f.start_byte;
    let end_byte = f.end_byte;
    let len = source.as_bytes().len();
    assert(source.spec_bytes() == encode_utf8(source@));
    if end_byte < start {
        return None;
    }
    if start < end_byte && end_byte <= len && !(source.is_char_boundary(start)
        && source.is_char_boundary(end_byte)) {
        return None;
    }
    if f.descendants > usize::MAX - idx {
        return None;
    }
    let end = idx + f.descendants;
    let has_children = idx < end && idx + 1 < end;
    if has_children && fuel == 0 {
        return None;
    }
    let text = node_text(source, start, end_byte, f.named, compact_mode);
    let mut children: Vec<AstNode> = Vec::new();
    let ghost total = if has_children {
        ast_children(source@, (idx + 1) as nat, end as nat, (fuel - 1) as nat, compact_mode)
    } else {
        Some(Seq::<AstView>::empty())
    };
    assert(ast_at(source@, idx as nat, fuel as nat, compact_mode) == (match total {
        Some(c) => Some(
            AstView {
                kind: f.kind@,
                field_name: None,
                named: f.named,
                start: f.start,
                end: f.end,
                start_byte: start,
                end_byte: end_byte,
                text: text@,
                path: None,
                children: fields_kept(c),
            },
        ),
        None => None,
    }));
    assert(ast_views(children@) =~= Seq::<AstView>::empty());
    if has_children {
        let mut cur: usize = idx + 1;
        while cur < end
            invariant
                fuel > 0,
                idx < cur,
                has_children,
                ast_at(source@, idx as nat, fuel as nat, compact_mode) == (match total {
                    Some(c) => Some(
                        AstView {
                            kind: f.kind@,
                            field_name: None,
                            named: f.named,
                            start: f.start,
                            end: f.end,
                            start_byte: start,
                            end_byte: end_byte,
                            text: text@,
                            path: None,
                            children: fields_kept(c),
                        },
                    ),
                    None => None,
                }),
                total == ast_children(
                    source@,
                    (idx + 1) as nat,
                    end as nat,
                    (fuel - 1) as nat,
                    compact_mode,
                ),
                total == match ast_children(
                    source@,
                    cur as nat,
                    end as nat,
                    (fuel - 1) as nat,
                    compact_mode,
                ) {
                    Some(rest) => Some(ast_views(children@) + rest),
                    None => None::<Seq<AstView>>,
                },
            decreases end - cur,
        {
            let (mut c, d, fname) = match ast_node_of(source, cur, fuel - 1, compact_mode) {
                Some(x) => x,
                None => return None,
            };
            if d == 0 || d > usize::MAX - cur {
                return None;
            }
            let ghost cv = c@;
            c.field_name = fname;
            proof {
                lemma_ast_view_children(c);
                assert(c@ == AstView { field_name: opt_text(fname), ..cv });
            }
            let ghost before = children@;
            children.push(c);
            proof {
                assert(ast_views(children@) =~= ast_views(before).push(c@));
                if cur + d >= end {
                    assert(ast_views(before) + seq![c@] =~= ast_views(children@)
                        + Seq::<AstView>::empty());
                } else {
                    let rest2 = ast_children(
                        source@,
                        (cur + d) as nat,
                        end as nat,
                        (fuel - 1) as nat,
                        compact_mode,
                    );
                    match rest2 {
                        Some(r2) => {
                            assert(ast_views(before) + (seq![c@] + r2) =~= ast_views(children@)
                                + r2);
                        },
                        None => {},
                    }
                }
            }
            cur = if d >= end - cur {
                end
            } else {
                cur + d
            };
        }
        assert(ast_views(children@) + Seq::<AstView>::empty() =~= ast_views(children@));
    }
    let ghost cv = ast_views(children@);
    keep_fields(&mut children);
    let n = AstNode {
        kind: f.kind,
        field_name: None,
        named: f.named,
        start_position: f.start,
        end_position: f.end,
        start_byte: start,
        end_byte: end_byte,
        text,
        path: None,
        children,
    };
    proof {
        lemma_ast_view_children(n);
    }
    assert(n@ =~= AstView {
        kind: f.kind@,
        field_name: None,
        named: f.named,
        start: f.start,
        end: f.end,
        start_byte: start,
        end_byte: end_byte,
        text: text@,
        path: None,
        children: fields_kept(cv),
    });
    Some((n, f.descendants, f.field_name))
}

/// Parses Bicep source text with the tree-sitter Bicep grammar and reads its
/// whole tree as the export presents it (`ast_model`); `None` where the
/// grammar cannot be loaded, the parser gives up, or a node's text cannot be
/// read.
pub fn parse_ast(source_code: &str, compact_mode: bool) -> (r: Option<AstNode>)
    ensures
        match ast_model(source_code@, compact_mode) {
            Some(v) => r matches Some(n) && n@ == v,
            None => r is None,
        },
{
    let root = match ts_node_at(source_code, 0) {
        Some(f) => f,
        None => return None,
    };
    match ast_node_of(source_code, 0, root.descendants, compact_mode) {
        Some((n, _, _)) => Some(n),
        None => None,
    }
}

// ---------------------------------------------------------------
// Ranking statistics by count
// ---------------------------------------------------------------

/// The position of the first entry, from `i` on, whose count is below `c`
/// (the length where there is none).
pub open spec fn first_below<K>(s: Seq<(K, usize)>, c: usize, i: int) -> int
    decreases s.len() - i,
{
    if i < 0 || i >= s.len() {
        s.len() as int
    } else if s[i].1 < c {
        i
    } else {
        first_below(s, c, i + 1)
    }
}

/// `s` with `x` placed after every entry whose count is at least its own.
pub open spec fn rank_insert<K>(s: Seq<(K, usize)>, x: (K, usize)) -> Seq<(K, usize)> {
    s.insert(first_below(s, x.1, 0), x)
}

/// The entries by count, largest first; entries with equal counts keep
/// their order (a stable sort by descending count).
pub open spec fn ranked<K>(s: Seq<(K, usize)>) -> Seq<(K, usize)>
    decreases s.len(),
{
    if s.len() == 0 {
        Seq::empty()
    } else {
        rank_insert(ranked(s.drop_last()), s.last())
    }
}

/// Counts never grow along the entries.
pub open spec fn by_descending_count<K>(s: Seq<(K, usize)>) -> bool {
    forall|i: int, j: int| 0 <= i < j < s.len() ==> s[i].1 >= s[j].1
}

proof fn lemma_first_below<K>(s: Seq<(K, usize)>, c: usize, i: int)
    requires
        0 <= i <= s.len(),
    ensures
        i <= first_below(s, c, i) <= s.len(),
        forall|j: int| i <= j < first_below(s, c, i) ==> s[j].1 >= c,
        first_below(s, c, i) < s.len() ==> s[first_below(s, c, i)].1 < c,
    decreases s.len() - i,
{
    if i < s.len() && s[i].1 >= c {
        lemma_first_below(s, c, i + 1);
    }
}

/// Ranks entries by count, largest first, keeping the order of entries
/// with equal counts.
pub fn rank_by_count<K>(entries: Vec<(K, usize)>) -> (r: Vec<(K, usize)>)
    ensures
        r@ == ranked(entries@),
{
    let ghost all = entries@;
    let n: usize = entries.len();
    let mut rest = entries;
    let mut out: Vec<(K, usize)> = Vec::new();
    let mut taken: usize = 0;
    while rest.len() > 0
        invariant
            taken <= all.len(),
            all.len() == n,
            rest@ == all.subrange(taken as int, all.len() as int),
            out@ == ranked(all.subrange(0, taken as int)),
        decreases rest@.len(),
    {
        let x = rest.remove(0);
        let mut p: usize = 0;
        while p < out.len() && out[p].1 >= x.1
            invariant
                p <= out@.len(),
                first_below(out@, x.1, 0) == first_below(out@, x.1, p as int),
            decreases out@.len() - p,
        {
            p = p + 1;
        }
        proof {
            assert(all.subrange(0, taken + 1).drop_last() =~= all.subrange(0, taken as int));
            assert(all.subrange(0, taken + 1).last() == x);
        }
        out.insert(p, x);
        taken = taken + 1;
        assert(rest@ =~= all.subrange(taken as int, all.len() as int));
    }
    assert(all.subrange(0, all.len() as int) =~= all);
    out
}

/// Ranking leaves the counts in descending order.
pub proof fn law_ranked_by_descending_count<K>(s: Seq<(K, usize)>)
    ensures
        by_descending_count(ranked(s)),
    decreases s.len(),
{
    if s.len() > 0 {
        let t = ranked(s.drop_last());
        law_ranked_by_descending_count(s.drop_last());
        let x = s.last();
        lemma_first_below(t, x.1, 0);
        let p = first_below(t, x.1, 0);
        let u = t.insert(p, x);
        assert forall|i: int, j: int| 0 <= i < j < u.len() implies u[i].1 >= u[j].1 by {
            if j < p {
                assert(u[i] == t[i] && u[j] == t[j]);
            } else if j == p {
                assert(u[i] == t[i]);
            } else if i < p {
                assert(u[i] == t[i] && u[j] == t[j - 1]);
                if j - 1 > p {
                    assert(t[p].1 >= t[j - 1].1);
                }
            } else if i == p {
                assert(u[j] == t[j - 1]);
                assert(t[p].1 >= t[j - 1].1);
            } else {
                assert(u[i] == t[i - 1] && u[j] == t[j - 1]);
            }
        }
    }
}

/// Ranking keeps every entry: the same entries, as many times each.
pub proof fn law_ranked_keeps_entries<K>(s: Seq<(K, usize)>)
    ensures
        ranked(s).to_multiset() == s.to_multiset(),
    decreases s.len(),
{
    if s.len() > 0 {
        let t = ranked(s.drop_last());
        law_ranked_keeps_entries(s.drop_last());
        let x = s.last();
        lemma_first_below(t, x.1, 0);
        let p = first_below(t, x.1, 0);
        let a = t.subrange(0, p);
        let b = t.subrange(p, t.len() as int);
        assert(t.insert(p, x) =~= a + (seq![x] + b));
        assert(t =~= a + b);
        vstd::seq_lib::lemma_multiset_commutative(a, seq![x] + b);
        vstd::seq_lib::lemma_multiset_commutative(seq![x], b);
        vstd::seq_lib::lemma_multiset_commutative(a, b);
        assert(s =~= s.drop_last() + seq![x]);
        vstd::seq_lib::lemma_multiset_commutative(s.drop_last(), seq![x]);
        assert(seq![x].to_multiset() =~= vstd::multiset::Multiset::empty().insert(x)) by {
            broadcast use vstd::seq_lib::group_to_multiset_ensures;
            assert(seq![x] =~= Seq::<(K, usize)>::empty().push(x));
        }
        assert(ranked(s).to_multiset() =~= s.to_multiset());
    } else {
        broadcast use vstd::seq_lib::group_to_multiset_ensures;

        assert(s =~= Seq::<(K, usize)>::empty());
    }
}

} // verus!
