//! The syntax tree that the parser reads: each node's kind, its source text
//! and its children, read once from the tree-sitter Bicep grammar.
use vstd::prelude::*;

use super::text_utils::range_text;
use super::BicepParserError;
use crate::ast::Position;
use vstd::string::StringSliceAdditionalSpecFns;
use vstd::utf8::{encode_utf8, is_char_boundary};

verus! {

/// A node of a Bicep syntax tree.
#[derive(Debug)]
pub struct SyntaxNode {
    /// The grammar kind (e.g. `"resource_declaration"`, `"identifier"`, `"="`)
    pub kind: String,
    /// The node's source text, untrimmed
    pub text: String,
    /// The children, in source order
    pub children: Vec<SyntaxNode>,
}

impl SyntaxNode {
    /// A node without children.
    pub fn leaf(kind: &str, text: &str) -> (r: SyntaxNode)
        ensures
            r.kind@ == kind@,
            r.text@ == text@,
            r.children@.len() == 0,
    {
        SyntaxNode { kind: kind.to_string(), text: text.to_string(), children: Vec::new() }
    }

    /// A node with the given children.
    pub fn branch(kind: &str, text: &str, children: Vec<SyntaxNode>) -> (r: SyntaxNode)
        ensures
            r.kind@ == kind@,
            r.text@ == text@,
            r.children@ == children@,
    {
        SyntaxNode { kind: kind.to_string(), text: text.to_string(), children }
    }
}

/// Whether the node's kind is `k`.
pub open spec fn kind_is(n: SyntaxNode, k: Seq<char>) -> bool {
    n.kind@ == k
}

// ---------------------------------------------------------------
// Reading a tree-sitter tree
// ---------------------------------------------------------------

#[verifier::external_type_specification]
#[verifier::external_body]
pub struct ExNode<'a>(tree_sitter::Node<'a>);

/// The byte at which tree-sitter reports that a node starts.
pub uninterp spec fn node_start_of(node: tree_sitter::Node) -> usize;

/// The byte at which tree-sitter reports that a node ends.
pub uninterp spec fn node_end_of(node: tree_sitter::Node) -> usize;

/// `tree_sitter::Node::start_byte`: a function of the node alone, named
/// `node_start_of`; nothing more is stated of it.
#[verifier::external_body]
pub(crate) fn ts_start_byte(node: &tree_sitter::Node) -> (r: usize)
    ensures
        r == node_start_of(*node),
{
    node.start_byte()
}

/// `tree_sitter::Node::end_byte`: a function of the node alone, named
/// `node_end_of`; nothing more is stated of it.
#[verifier::external_body]
pub(crate) fn ts_end_byte(node: &tree_sitter::Node) -> (r: usize)
    ensures
        r == node_end_of(*node),
{
    node.end_byte()
}

/// Whether the text of the node, and of every node below it, is the text of
/// some byte range of the source (`range_text`).
pub open spec fn read_from(n: SyntaxNode, src: Seq<char>) -> bool
    decreases n, 1int,
{
    &&& exists|start: usize, end: usize| n.text@ == range_text(src, start, end)
    &&& all_read_from(n.children@, src)
}

/// `read_from` of each node of a sequence.
pub open spec fn all_read_from(s: Seq<SyntaxNode>, src: Seq<char>) -> bool
    decreases s, 0int,
{
    s.len() > 0 ==> {
        &&& all_read_from(s.subrange(0, s.len() - 1), src)
        &&& read_from(s[s.len() - 1], src)
    }
}

/// What tree-sitter reports of one node of a parsed source: its kind, whether
/// it is named, its byte range and positions, the number of nodes of its
/// subtree (itself included) and the field under which its parent holds it.
#[derive(Debug)]
pub struct TsNodeFacts {
    pub kind: String,
    pub named: bool,
    pub start_byte: usize,
    pub end_byte: usize,
    pub start: Position,
    pub end: Position,
    pub descendants: usize,
    pub field_name: Option<String>,
}

/// The content of a `TsNodeFacts`.
pub struct TsNodeView {
    pub kind: Seq<char>,
    pub named: bool,
    pub start_byte: usize,
    pub end_byte: usize,
    pub start: Position,
    pub end: Position,
    pub descendants: usize,
    pub field_name: Option<Seq<char>>,
}

impl View for TsNodeFacts {
    type V = TsNodeView;

    open spec fn view(&self) -> TsNodeView {
        TsNodeView {
            kind: self.kind@,
            named: self.named,
            start_byte: self.start_byte,
            end_byte: self.end_byte,
            start: self.start,
            end: self.end,
            descendants: self.descendants,
            field_name: match self.field_name {
                Some(f) => Some(f@),
                None => None,
            },
        }
    }
}

/// What tree-sitter reports of the node at position `index` in preorder
/// (zero is the root) of the tree that the Bicep grammar gives for `source`;
/// `None` where the grammar cannot be loaded or the parser gives up.
pub uninterp spec fn bicep_node_at(source: Seq<char>, index: nat) -> Option<TsNodeView>;

/// Parses `source` with the tree-sitter Bicep grammar (`Parser::new`,
/// `set_language`, `parse`), moves a cursor of the tree to the node at
/// preorder position `index` (`TreeCursor::goto_descendant`) and reports that
/// node (`kind`, `is_named`, `start_byte`, `end_byte`, `start_position`,
/// `end_position`, `descendant_count`, and the cursor's `field_name`). The
/// result depends on the source and the index alone, and is named
/// `bicep_node_at`; nothing more is stated of it.
#[verifier::external_body]
pub(crate) fn ts_node_at(source: &str, index: usize) -> (r: Option<TsNodeFacts>)
    ensures
        bicep_node_at(source@, index as nat) == (match r {
            Some(f) => Some(f@),
            None => None,
        }),
{
    let mut parser = tree_sitter::Parser::new();
    parser.set_language(&tree_sitter_bicep::LANGUAGE.into()).ok()?;
    let tree = parser.parse(source, None)?;
    let mut cursor = tree.walk();
    cursor.goto_descendant(index);
    let (n, f) = (cursor.node(), cursor.field_name());
    let (s, e) = (n.start_position(), n.end_position());
    Some(TsNodeFacts {
        kind: n.kind().to_string(), named: n.is_named(), start_byte: n.start_byte(),
        end_byte: n.end_byte(), descendants: n.descendant_count(),
        start: Position { row: s.row, column: s.column },
        end: Position { row: e.row, column: e.column }, field_name: f.map(String::from),
    })
}

/// Whether a node's byte range lies inside the source, between characters.
pub open spec fn range_ok(src: Seq<char>, start: usize, end: usize) -> bool {
    &&& start <= end
    &&& end <= encode_utf8(src).len()
    &&& is_char_boundary(encode_utf8(src), start as int)
    &&& is_char_boundary(encode_utf8(src), end as int)
}

/// The content of a `SyntaxNode`.
pub struct SyntaxView {
    pub kind: Seq<char>,
    pub text: Seq<char>,
    pub children: Seq<SyntaxView>,
}

pub open spec fn syntax_view(n: SyntaxNode) -> SyntaxView
    decreases n,
{
    SyntaxView {
        kind: n.kind@,
        text: n.text@,
        children: Seq::new(
            n.children@.len(),
            |i: int|
                if 0 <= i < n.children@.len() {
                    proof {
                        assert(decreases_to!(n => n.children@[i]));
                    }
                    syntax_view(n.children@[i])
                } else {
                    SyntaxView { kind: Seq::empty(), text: Seq::empty(), children: Seq::empty() }
                },
        ),
    }
}

/// The views of a sequence of nodes.
pub open spec fn syntax_views(s: Seq<SyntaxNode>) -> Seq<SyntaxView> {
    Seq::new(s.len(), |i: int| syntax_view(s[i]))
}

/// The syntax tree below the node at preorder position `idx` of the parse of
/// `src`, reading down `fuel` levels: each node's kind, its text (its byte
/// range of the source) and its children, which follow it in preorder. `None`
/// where the parse gives no such node, a range does not lie inside the source
/// between characters, or the fuel runs out.
pub open spec fn syntax_at(src: Seq<char>, idx: nat, fuel: nat) -> Option<SyntaxView>
    decreases fuel, 0int, 0int,
{
    match bicep_node_at(src, idx) {
        None => None,
        Some(f) => {
            let end: nat = idx + f.descendants as nat;
            if !range_ok(src, f.start_byte, f.end_byte) || end > usize::MAX {
                None
            } else if idx + 1 < end && fuel == 0 {
                None
            } else {
                let cs = if idx + 1 < end {
                    syntax_children(src, idx + 1nat, end, (fuel - 1) as nat)
                } else {
                    Some(Seq::empty())
                };
                match cs {
                    Some(c) => Some(
                        SyntaxView {
                            kind: f.kind,
                            text: range_text(src, f.start_byte, f.end_byte),
                            children: c,
                        },
                    ),
                    None => None,
                }
            }
        },
    }
}

/// The trees of the children that start at preorder positions from `cur` on,
/// up to `end`: each child's subtree is followed by its next sibling.
pub open spec fn syntax_children(src: Seq<char>, cur: nat, end: nat, fuel: nat) -> Option<
    Seq<SyntaxView>,
>
    decreases fuel, 1int, end - cur,
{
    if cur >= end {
        Some(Seq::empty())
    } else {
        match (syntax_at(src, cur, fuel), bicep_node_at(src, cur)) {
            (Some(c), Some(f)) => if f.descendants == 0 || cur + f.descendants > usize::MAX {
                None
            } else if cur + f.descendants >= end {
                Some(seq![c])
            } else {
                match syntax_children(src, cur + f.descendants as nat, end, fuel) {
                    Some(rest) => Some(seq![c] + rest),
                    None => None,
                }
            },
            _ => None,
        }
    }
}

/// The syntax tree that the Bicep grammar gives for `src`, read down as many
/// levels as the tree has nodes.
pub open spec fn bicep_syntax(src: Seq<char>) -> Option<SyntaxView> {
    match bicep_node_at(src, 0) {
        Some(f) => syntax_at(src, 0, f.descendants as nat),
        None => None,
    }
}

proof fn lemma_syntax_view_children(n: SyntaxNode)
    ensures
        syntax_view(n).children == syntax_views(n.children@),
{
    assert(syntax_view(n).children =~= syntax_views(n.children@));
}

/// Reads the node at preorder position `idx` of the parse of `source` and,
/// down `fuel` levels, the nodes below it (`syntax_at`); also the number of
/// nodes of its subtree.
fn syntax_node_of(source: &str, idx: usize, fuel: usize) -> (r: Option<(SyntaxNode, usize)>)
    ensures
        match r {
            Some((n, d)) => {
                &&& syntax_at(source@, idx as nat, fuel as nat) == Some(syntax_view(n))
                &&& bicep_node_at(source@, idx as nat) matches Some(f) && f.descendants == d
                &&& read_from(n, source@)
            },
            None => syntax_at(source@, idx as nat, fuel as nat) is None,
        },
    decreases fuel,
{
    let f = match ts_node_at(source, idx) {
        Some(f) => f,
        None => return None,
    };
    let start = f.start_byte;
    let end_byte = f.end_byte;
    let len = source.as_bytes().len();
    assert(source.spec_bytes() == encode_utf8(source@));
    if !(start <= end_byte && end_byte <= len && source.is_char_boundary(start)
        && source.is_char_boundary(end_byte)) {
        return None;
    }
    if f.descendants > usize::MAX - idx {
        return None;
    }
    let end = idx + f.descendants;
    let has_children = idx < end && idx + 1 < end;
    if has_children && fuel == 0 {
        return None;
    }
    let text = if start < end_byte {
        crate::ast::source_text(source, start, end_byte)
    } else {
        String::new()
    };
    assert(text@ == range_text(source@, start, end_byte));
    let mut children: Vec<SyntaxNode> = Vec::new();
    if has_children {
        let ghost total = syntax_children(source@, (idx + 1) as nat, end as nat, (fuel - 1) as nat);
        assert(syntax_at(source@, idx as nat, fuel as nat) == (match total {
            Some(c) => Some(SyntaxView { kind: f.kind@, text: text@, children: c }),
            None => None,
        }));
        let mut cur: usize = idx + 1;
        assert(syntax_views(children@) =~= Seq::<SyntaxView>::empty());
        while cur < end
            invariant
                fuel > 0,
                idx < cur,
                total == syntax_children(source@, (idx + 1) as nat, end as nat, (fuel - 1) as nat),
                syntax_at(source@, idx as nat, fuel as nat) == (match total {
                    Some(c) => Some(SyntaxView { kind: f.kind@, text: text@, children: c }),
                    None => None,
                }),
                total == match syntax_children(source@, cur as nat, end as nat, (fuel - 1) as nat) {
                    Some(rest) => Some(syntax_views(children@) + rest),
                    None => None::<Seq<SyntaxView>>,
                },
                all_read_from(children@, source@),
            decreases end - cur,
        {
            let (c, d) = match syntax_node_of(source, cur, fuel - 1) {
                Some(x) => x,
                None => return None,
            };
            if d == 0 || d > usize::MAX - cur {
                return None;
            }
            let ghost before = children@;
            children.push(c);
            proof {
                assert(children@.subrange(0, children@.len() - 1) =~= before);
                assert(syntax_views(children@) =~= syntax_views(before).push(syntax_view(c)));
                if cur + d >= end {
                    assert(syntax_views(before) + seq![syntax_view(c)] =~= syntax_views(children@)
                        + Seq::<SyntaxView>::empty());
                } else {
                    let rest2 = syntax_children(
                        source@,
                        (cur + d) as nat,
                        end as nat,
                        (fuel - 1) as nat,
                    );
                    match rest2 {
                        Some(r2) => {
                            assert(syntax_views(before) + (seq![syntax_view(c)] + r2) =~= syntax_views(
                                children@,
                            ) + r2);
                        },
                        None => {},
                    }
                }
            }
            cur = if d >= end - cur {
                end
            } else {
                cur + d
            };
        }
        assert(syntax_views(children@) + Seq::<SyntaxView>::empty() =~= syntax_views(children@));
    } else {
        assert(syntax_views(children@) =~= Seq::<SyntaxView>::empty());
    }
    let n = SyntaxNode { kind: f.kind, text, children };
    proof {
        lemma_syntax_view_children(n);
    }
    Some((n, f.descendants))
}

/// Parses Bicep source text into its syntax tree (`bicep_syntax`), each
/// node's text read from the source by the node's byte range.
pub fn parse_syntax_tree(source: &str) -> (r: Result<SyntaxNode, BicepParserError>)
    ensures
        match bicep_syntax(source@) {
            Some(v) => r matches Ok(n) && syntax_view(n) == v && read_from(n, source@),
            None => r matches Err(e) && e is ParseError,
        },
{
    let root = match ts_node_at(source, 0) {
        Some(f) => f,
        None => {
            return Err(BicepParserError::ParseError("Failed to parse Bicep file".to_string()));
        },
    };
    match syntax_node_of(source, 0, root.descendants) {
        Some((n, _)) => Ok(n),
        None => Err(BicepParserError::ParseError("Failed to read the syntax tree".to_string())),
    }
}

} // verus!
