//! Type expressions: primitive, array, union, nullable, custom and inline
//! object types.
use vstd::prelude::*;

use super::decorators::{
    common_scan, common_start, decorators_scan, decorators_shaped, description_of, CommonView,
};
use super::syntax::{kind_is, SyntaxNode};
use super::decorators::{opt_entries_view, parse_decorators, process_common_decorators};
use super::resources::{chars_list, strings_view};
use super::values::has_kind;
use super::{
    decorators_view, lemma_type_view_object, param_view, param_view_default, params_view,
    type_view, BicepDecorator, BicepParameter, BicepParserError, BicepType, DecoratorView,
    ParamView, TypeView,
};
use crate::ordered_map::{index_of, insert_entry, lemma_index_of, lemma_key_pos, put, same_keys, OrderedMap};
use crate::text::{
    chars_of, contains_str, ends_with, eq_str, slice_chars, spec_contains, spec_ends_with,
    spec_split_char, spec_trim, split_char, string_of, trim,
};

verus! {

// ---------------------------------------------------------------
// Models
// ---------------------------------------------------------------

/// A primitive type name; anything else reads as `string`.
pub open spec fn prim_type(t: Seq<char>) -> TypeView {
    if t == "string"@ {
        TypeView::Str
    } else if t == "int"@ {
        TypeView::Int
    } else if t == "bool"@ {
        TypeView::Bool
    } else if t == "object"@ {
        TypeView::Object(None)
    } else {
        TypeView::Str
    }
}

/// A primitive type name; anything else is a reference to a custom type.
pub open spec fn prim_or_custom(t: Seq<char>) -> TypeView {
    if t == "string"@ || t == "int"@ || t == "bool"@ || t == "object"@ {
        prim_type(t)
    } else {
        TypeView::Custom(t)
    }
}

/// Whether `t` starts and ends with the same kind of quote.
pub open spec fn quoted(t: Seq<char>) -> bool {
    t.len() >= 1 && ((t[0] == '"' && t.last() == '"') || (t[0] == '\'' && t.last() == '\''))
}

/// A single quote character, which cannot be unquoted.
pub open spec fn lone_quote(t: Seq<char>) -> bool {
    t.len() == 1 && quoted(t)
}

/// `t` without its surrounding quotes, if it has them.
pub open spec fn unquote(t: Seq<char>) -> Seq<char> {
    if quoted(t) && t.len() >= 2 {
        t.subrange(1, t.len() - 1)
    } else {
        t
    }
}

/// The members of a union type read from its children, from child `i` on.
pub open spec fn union_scan(n: SyntaxNode, i: int, acc: Seq<Seq<char>>) -> Seq<Seq<char>>
    decreases n.children@.len() - i,
{
    if i < 0 || i >= n.children@.len() {
        acc
    } else {
        let c = n.children@[i];
        let t = spec_trim(c.text@);
        if kind_is(c, "string"@) {
            union_scan(n, i + 1, acc.push(unquote(t)))
        } else if kind_is(c, "primitive_type"@) || kind_is(c, "identifier"@) || kind_is(
            c,
            "type_reference"@,
        ) {
            union_scan(n, i + 1, acc.push(t))
        } else if kind_is(c, "|"@) {
            union_scan(n, i + 1, acc)
        } else if spec_trim(t).len() > 0 && t != "|"@ {
            union_scan(n, i + 1, acc.push(t))
        } else {
            union_scan(n, i + 1, acc)
        }
    }
}

/// The members of a union written as text: the unquoted, non-empty pieces between `|`.
pub open spec fn union_pieces(ps: Seq<Seq<char>>, i: int, acc: Seq<Seq<char>>) -> Seq<Seq<char>>
    decreases ps.len() - i,
{
    if i < 0 || i >= ps.len() {
        acc
    } else {
        let p = unquote(spec_trim(ps[i]));
        if p.len() > 0 {
            union_pieces(ps, i + 1, acc.push(p))
        } else {
            union_pieces(ps, i + 1, acc)
        }
    }
}

/// A union type node.
pub open spec fn union_model(n: SyntaxNode) -> TypeView {
    let vs = union_scan(n, 0, Seq::empty());
    if vs.len() == 0 {
        let full = spec_trim(n.text@);
        if spec_contains(full, "|"@) {
            TypeView::Union(union_pieces(spec_split_char(full, '|'), 0, Seq::empty()))
        } else {
            TypeView::Union(vs)
        }
    } else {
        TypeView::Union(vs)
    }
}

/// The type a type node describes, and whether it is nullable.
pub open spec fn type_node_model(n: SyntaxNode) -> (TypeView, bool)
    decreases n, 5int, 0int,
{
    if kind_is(n, "primitive_type"@) {
        (prim_type(spec_trim(n.text@)), false)
    } else if kind_is(n, "nullable_type"@) {
        (nullable_first(n, 0), true)
    } else {
        let (ty, nl) = tn_scan(n, 0, TypeView::Str, false);
        if n.children@.len() == 0 {
            let t = spec_trim(n.text@);
            if spec_contains(t, "|"@) {
                (union_model(n), nl)
            } else if spec_ends_with(t, "[]"@) {
                (array_model(n), nl)
            } else if spec_ends_with(t, "?"@) {
                (prim_or_custom(t.subrange(0, t.len() - 1)), true)
            } else {
                (prim_or_custom(t), nl)
            }
        } else {
            (ty, nl)
        }
    }
}

/// The type of the first child of a nullable type other than `?`.
pub open spec fn nullable_first(n: SyntaxNode, i: int) -> TypeView
    decreases n, 4int, n.children@.len() - i,
{
    if i < 0 || i >= n.children@.len() {
        TypeView::Str
    } else if !kind_is(n.children@[i], "?"@) {
        type_node_model(n.children@[i]).0
    } else {
        nullable_first(n, i + 1)
    }
}

/// The type read from the children of a type node, from child `i` on.
pub open spec fn tn_scan(n: SyntaxNode, i: int, ty: TypeView, nl: bool) -> (TypeView, bool)
    decreases n, 4int, n.children@.len() - i,
{
    if i < 0 || i >= n.children@.len() {
        (ty, nl)
    } else {
        let c = n.children@[i];
        if kind_is(c, "primitive_type"@) {
            tn_scan(n, i + 1, prim_type(spec_trim(c.text@)), nl)
        } else if kind_is(c, "object"@) {
            tn_scan(n, i + 1, TypeView::Object(Some(inline_object_model(c))), nl)
        } else if kind_is(c, "array_type"@) {
            tn_scan(n, i + 1, array_model(c), nl)
        } else if kind_is(c, "union_type"@) {
            tn_scan(n, i + 1, union_model(c), nl)
        } else if kind_is(c, "nullable_type"@) {
            tn_scan(n, i + 1, type_node_model(c).0, true)
        } else if kind_is(c, "identifier"@) || kind_is(c, "type_reference"@) {
            tn_scan(n, i + 1, TypeView::Custom(spec_trim(c.text@)), nl)
        } else if kind_is(c, "?"@) {
            tn_scan(n, i + 1, ty, true)
        } else {
            tn_scan(n, i + 1, ty, nl)
        }
    }
}

/// An array type node.
pub open spec fn array_model(n: SyntaxNode) -> TypeView
    decreases n, 3int, 0int,
{
    if n.children@.len() == 0 {
        let t = spec_trim(n.text@);
        if spec_ends_with(t, "[]"@) {
            TypeView::Array(Box::new(prim_or_custom(t.subrange(0, t.len() - 2))))
        } else {
            TypeView::Array(Box::new(TypeView::Str))
        }
    } else {
        TypeView::Array(Box::new(array_first(n, 0)))
    }
}

/// The element type from the first child of an array type that names one.
pub open spec fn array_first(n: SyntaxNode, i: int) -> TypeView
    decreases n, 2int, n.children@.len() - i,
{
    if i < 0 || i >= n.children@.len() {
        TypeView::Str
    } else {
        let c = n.children@[i];
        if kind_is(c, "type"@) {
            type_node_model(c).0
        } else if kind_is(c, "primitive_type"@) {
            prim_type(spec_trim(c.text@))
        } else if kind_is(c, "array_type"@) {
            array_model(c)
        } else if kind_is(c, "union_type"@) {
            union_model(c)
        } else if kind_is(c, "identifier"@) || kind_is(c, "type_reference"@) {
            TypeView::Custom(spec_trim(c.text@))
        } else {
            array_first(n, i + 1)
        }
    }
}

/// A property with its pending decorators applied.
pub open spec fn with_decorators(p: ParamView, pend: Seq<DecoratorView>) -> ParamView {
    if pend.len() == 0 {
        p
    } else {
        let st = common_scan(pend, 0, common_start());
        ParamView {
            description: if p.description is None {
                description_of(pend)
            } else {
                p.description
            },
            metadata: match st.metadata {
                Some(m) => m,
                None => p.metadata,
            },
            min_length: if st.min_length is Some {
                st.min_length
            } else {
                p.min_length
            },
            max_length: if st.max_length is Some {
                st.max_length
            } else {
                p.max_length
            },
            min_value: if st.min_value is Some {
                st.min_value
            } else {
                p.min_value
            },
            max_value: if st.max_value is Some {
                st.max_value
            } else {
                p.max_value
            },
            secure: st.secure,
            sealed: st.sealed,
            ..p
        }
    }
}

/// The properties of an inline object type.
pub open spec fn inline_object_model(n: SyntaxNode) -> Seq<(Seq<char>, ParamView)>
    decreases n, 3int, 0int,
{
    inline_scan(n, 0, Seq::empty(), Seq::empty())
}

/// The properties of an inline object type from child `i` on, with the
/// decorators waiting for the next property.
pub open spec fn inline_scan(
    n: SyntaxNode,
    i: int,
    pend: Seq<DecoratorView>,
    acc: Seq<(Seq<char>, ParamView)>,
) -> Seq<(Seq<char>, ParamView)>
    decreases n, 2int, n.children@.len() - i,
{
    if i < 0 || i >= n.children@.len() {
        acc
    } else {
        let c = n.children@[i];
        if kind_is(c, "decorators"@) {
            inline_scan(n, i + 1, pend + decorators_scan(c, 0, Seq::empty()), acc)
        } else if kind_is(c, "object_property"@) {
            match property_model(c) {
                Some((name, p)) => inline_scan(
                    n,
                    i + 1,
                    Seq::empty(),
                    put(acc, name, with_decorators(p, pend)),
                ),
                None => inline_scan(n, i + 1, pend, acc),
            }
        } else {
            inline_scan(n, i + 1, pend, acc)
        }
    }
}

/// A property of an inline object type: its name (the first child) and type
/// (the third child). `None` where it has fewer than three children.
pub open spec fn property_model(p: SyntaxNode) -> Option<(Seq<char>, ParamView)>
    decreases p, 1int, 0int,
{
    if p.children@.len() < 3 {
        None
    } else {
        let t = p.children@[2];
        let (ty, nl) = if kind_is(t, "object"@) {
            (TypeView::Object(Some(inline_object_model(t))), false)
        } else {
            type_node_model(t)
        };
        Some(
            (
                spec_trim(p.children@[0].text@),
                ParamView { ty, nullable: nl, ..super::param_view_default() },
            ),
        )
    }
}

/// The type a property type node describes: from its children, else from its text.
pub open spec fn property_type_model(n: SyntaxNode) -> TypeView {
    match pt_scan(n, 0, None) {
        Some(t) => t,
        None => {
            let t = spec_trim(n.text@);
            if t == "string"@ || t == "int"@ || t == "bool"@ || t == "object"@ {
                prim_type(t)
            } else if spec_contains(t, "|"@) {
                union_model(n)
            } else if spec_ends_with(t, "[]"@) {
                array_model(n)
            } else {
                TypeView::Custom(t)
            }
        },
    }
}

/// The type read from the children of a property type node, from child `i` on.
pub open spec fn pt_scan(n: SyntaxNode, i: int, acc: Option<TypeView>) -> Option<TypeView>
    decreases n.children@.len() - i,
{
    if i < 0 || i >= n.children@.len() {
        acc
    } else {
        let c = n.children@[i];
        if kind_is(c, "primitive_type"@) {
            pt_scan(n, i + 1, Some(prim_type(spec_trim(c.text@))))
        } else if kind_is(c, "array_type"@) {
            pt_scan(n, i + 1, Some(array_model(c)))
        } else if kind_is(c, "union_type"@) {
            pt_scan(n, i + 1, Some(union_model(c)))
        } else if kind_is(c, "ambient_type_reference"@) || kind_is(c, "type_reference"@)
            || kind_is(c, "identifier"@) || kind_is(c, "member_expression"@) {
            pt_scan(n, i + 1, Some(TypeView::Custom(spec_trim(c.text@))))
        } else {
            pt_scan(n, i + 1, acc)
        }
    }
}

/// No string child of the node is a lone quote.
pub open spec fn strings_unquotable(n: SyntaxNode) -> bool {
    forall|i: int|
        0 <= i < n.children@.len() && kind_is(#[trigger] n.children@[i], "string"@) ==> !lone_quote(
            spec_trim(n.children@[i].text@),
        )
}

/// No `|`-separated piece of the node's text is a lone quote.
pub open spec fn pieces_unquotable(n: SyntaxNode) -> bool {
    forall|i: int|
        0 <= i < spec_split_char(spec_trim(n.text@), '|').len() ==> !lone_quote(
            spec_trim(#[trigger] spec_split_char(spec_trim(n.text@), '|')[i]),
        )
}

/// Whether a union read from the node falls back on splitting its text at
/// `|`: no child gives a member and the text holds a `|`.
pub open spec fn union_splits_text(n: SyntaxNode) -> bool {
    union_scan(n, 0, Seq::empty()).len() == 0 && spec_contains(spec_trim(n.text@), "|"@)
}

/// The union members of a node can be unquoted: no string child is a lone
/// quote, nor, where the text is split, any piece of it.
pub open spec fn union_ok(n: SyntaxNode) -> bool {
    &&& strings_unquotable(n)
    &&& union_splits_text(n) ==> pieces_unquotable(n)
}

/// Whether `parse_type_node` reads a union from the node's own text: the
/// node is neither a primitive nor a nullable type, has no children, and its
/// text holds `|`.
pub open spec fn type_text_union(n: SyntaxNode) -> bool {
    &&& !kind_is(n, "primitive_type"@)
    &&& !kind_is(n, "nullable_type"@)
    &&& n.children@.len() == 0
    &&& spec_contains(spec_trim(n.text@), "|"@)
}

/// Whether `parse_property_type` reads a union from the node's own text: no
/// child names a type and the text holds `|`.
pub open spec fn property_text_union(n: SyntaxNode) -> bool {
    pt_scan(n, 0, None) is None && spec_contains(spec_trim(n.text@), "|"@)
}

/// A node read as a type can be read: where a union comes from its own
/// text, the members can be unquoted.
pub open spec fn type_node_ok(n: SyntaxNode) -> bool {
    type_text_union(n) ==> union_ok(n)
}

/// A node read as a property type can be read (as `type_node_ok`).
pub open spec fn property_type_ok(n: SyntaxNode) -> bool {
    property_text_union(n) ==> union_ok(n)
}

/// The first child of a nullable type other than `?`, from child `i` on,
/// can be read as a type.
pub open spec fn nullable_first_ok(n: SyntaxNode, i: int) -> bool
    decreases n.children@.len() - i,
{
    if i < 0 || i >= n.children@.len() {
        true
    } else if !kind_is(n.children@[i], "?"@) {
        type_node_ok(n.children@[i])
    } else {
        nullable_first_ok(n, i + 1)
    }
}

/// Where the type parsers read a union from this node or from the nodes
/// they read as types below it, its members can be unquoted: a union type,
/// a `type` node read as a type or as a property type, the inner type of a
/// nullable type and the type of an inline object property. The string of
/// a target scope can be unquoted too.
pub open spec fn unions_read_ok(n: SyntaxNode) -> bool {
    &&& kind_is(n, "union_type"@) ==> union_ok(n)
    &&& kind_is(n, "target_scope_assignment"@) ==> strings_unquotable(n)
    &&& kind_is(n, "type"@) ==> type_node_ok(n) && property_type_ok(n)
    &&& kind_is(n, "nullable_type"@) ==> nullable_first_ok(n, 0)
    &&& kind_is(n, "object_property"@) && n.children@.len() >= 3 ==> type_node_ok(n.children@[2])
}

/// Every node of the tree meets `unions_read_ok`, and every `decorators`
/// node has shaped decorators.
pub open spec fn types_ok(n: SyntaxNode) -> bool
    decreases n, 1int, 0int,
{
    unions_read_ok(n) && decorators_shaped(n) && types_ok_from(n, 0)
}

pub open spec fn types_ok_from(n: SyntaxNode, i: int) -> bool
    decreases n, 0int, n.children@.len() - i,
{
    if i < 0 || i >= n.children@.len() {
        true
    } else {
        types_ok(n.children@[i]) && types_ok_from(n, i + 1)
    }
}

pub proof fn lemma_types_ok_child(n: SyntaxNode, i: int, j: int)
    requires
        types_ok_from(n, i),
        0 <= i <= j < n.children@.len(),
    ensures
        types_ok(n.children@[j]),
    decreases j - i,
{
    if i < j {
        lemma_types_ok_child(n, i + 1, j);
    }
}

// ---------------------------------------------------------------
// Executable
// ---------------------------------------------------------------

/// A parameter with every field at its default (a non-nullable `string`).
pub fn default_parameter() -> (r: BicepParameter)
    ensures
        r@ == param_view_default(),
{
    let r = BicepParameter {
        description: None,
        metadata: OrderedMap::new(),
        parameter_type: BicepType::String,
        default_value: None,
        discriminator: None,
        allowed_values: None,
        is_nullable: false,
        is_sealed: false,
        is_secure: false,
        min_length: None,
        max_length: None,
        min_value: None,
        max_value: None,
    };
    assert(super::entries_view(r.metadata@) =~= Seq::empty());
    r
}

/// Inserting into a map of parameters, seen through the view.
pub proof fn lemma_params_view_insert(s: Seq<(String, BicepParameter)>, k: String, v: BicepParameter)
    ensures
        params_view(insert_entry(s, k, v)) == put(params_view(s), k@, param_view(v)),
{
    let w = params_view(s);
    lemma_index_of(s, k@);
    assert(same_keys(s, w));
    lemma_key_pos(s, w, k@);
    let t = insert_entry(s, k, v);
    assert forall|j: int| 0 <= j < t.len() implies params_view(t)[j] == put(w, k@, param_view(v))[j] by {
        match index_of(s, k@) {
            Some(i) => {
                if j != i {
                    assert(t[j] == s[j]);
                }
            },
            None => {
                if j < s.len() {
                    assert(t[j] == s[j]);
                }
            },
        }
    }
    assert(params_view(t) =~= put(w, k@, param_view(v)));
}

fn prim_type_exec(t: &[char]) -> (r: BicepType)
    ensures
        type_view(r) == prim_type(t@),
{
    if eq_str(t, "string") {
        BicepType::String
    } else if eq_str(t, "int") {
        BicepType::Int
    } else if eq_str(t, "bool") {
        BicepType::Bool
    } else if eq_str(t, "object") {
        BicepType::Object(None)
    } else {
        BicepType::String
    }
}

fn prim_or_custom_exec(t: &[char]) -> (r: BicepType)
    ensures
        type_view(r) == prim_or_custom(t@),
{
    if eq_str(t, "string") || eq_str(t, "int") || eq_str(t, "bool") || eq_str(t, "object") {
        prim_type_exec(t)
    } else {
        BicepType::CustomType(string_of(t))
    }
}

fn unquote_exec(t: &[char]) -> (r: Vec<char>)
    requires
        !lone_quote(t@),
    ensures
        r@ == unquote(t@),
{
    let n = t.len();
    if n >= 1 && ((t[0] == '"' && t[n - 1] == '"') || (t[0] == '\'' && t[n - 1] == '\'')) && n >= 2 {
        slice_chars(t, 1, n - 1)
    } else {
        slice_chars(t, 0, n)
    }
}

fn trimmed_text(n: &SyntaxNode) -> (r: Vec<char>)
    ensures
        r@ == spec_trim(n.text@),
{
    let v = chars_of(n.text.as_str());
    trim(v.as_slice())
}

fn string_list(v: &Vec<Vec<char>>) -> (r: Vec<String>)
    ensures
        strings_view(r@) == chars_list(v@),
{
    let mut out: Vec<String> = Vec::new();
    let mut i: usize = 0;
    while i < v.len()
        invariant
            i <= v@.len(),
            strings_view(out@) == chars_list(v@).subrange(0, i as int),
        decreases v@.len() - i,
    {
        let ghost before = out@;
        let x = string_of(v[i].as_slice());
        out.push(x);
        i = i + 1;
        assert(strings_view(before).len() == i - 1);
        assert forall|j: int| 0 <= j < i implies #[trigger] strings_view(out@)[j] == chars_list(
            v@,
        ).subrange(0, i as int)[j] by {
            if j < i - 1 {
                assert(out@[j] == before[j]);
                assert(strings_view(before)[j] == chars_list(v@).subrange(0, i - 1)[j]);
            } else {
                assert(out@[j] == x);
            }
        }
        assert(strings_view(out@) =~= chars_list(v@).subrange(0, i as int));
    }
    assert(chars_list(v@).subrange(0, v@.len() as int) =~= chars_list(v@));
    out
}

/// The members of a union type read from its children.
fn union_members(node: &SyntaxNode) -> (r: Vec<Vec<char>>)
    requires
        strings_unquotable(*node),
    ensures
        chars_list(r@) == union_scan(*node, 0, Seq::empty()),
{
    let mut values: Vec<Vec<char>> = Vec::new();
    let mut i: usize = 0;
    assert(chars_list(values@) =~= Seq::<Seq<char>>::empty());
    while i < node.children.len()
        invariant
            i <= node.children@.len(),
            strings_unquotable(*node),
            union_scan(*node, 0, Seq::empty()) == union_scan(
                *node,
                i as int,
                chars_list(values@),
            ),
        decreases node.children@.len() - i,
    {
        let c = &node.children[i];
        let t = trimmed_text(c);
        let ghost before = values@;
        if has_kind(c, "string") {
            let u = unquote_exec(t.as_slice());
            values.push(u);
            assert(chars_list(values@) =~= chars_list(before).push(u@));
        } else if has_kind(c, "primitive_type") || has_kind(c, "identifier") || has_kind(
            c,
            "type_reference",
        ) {
            let ghost tv = t@;
            values.push(t);
            assert(chars_list(values@) =~= chars_list(before).push(tv));
        } else if has_kind(c, "|") {
        } else {
            let tt = trim(t.as_slice());
            if tt.len() > 0 && !eq_str(t.as_slice(), "|") {
                let ghost tv = t@;
                values.push(t);
                assert(chars_list(values@) =~= chars_list(before).push(tv));
            }
        }
        i = i + 1;
    }
    values
}

/// Whether the union read from the node falls back on splitting its text.
pub(crate) fn splits_text(node: &SyntaxNode) -> (r: bool)
    requires
        strings_unquotable(*node),
    ensures
        r == union_splits_text(*node),
{
    let values = union_members(node);
    let full = trimmed_text(node);
    values.len() == 0 && contains_str(full.as_slice(), "|")
}

/// Parses a union type: its members, unquoted.
pub fn parse_union_type(node: &SyntaxNode) -> (r: Result<BicepType, BicepParserError>)
    requires
        union_ok(*node),
    ensures
        r matches Ok(t) && t@ == union_model(*node),
{
    let values = union_members(node);
    if values.len() == 0 {
        let full = trimmed_text(node);
        if contains_str(full.as_slice(), "|") {
            let parts = split_char(full.as_slice(), '|');
            let ghost ps = chars_list(parts@);
            let mut out: Vec<Vec<char>> = Vec::new();
            let mut j: usize = 0;
            assert(chars_list(out@) =~= Seq::<Seq<char>>::empty());
            while j < parts.len()
                invariant
                    j <= parts@.len(),
                    ps == chars_list(parts@),
                    ps == spec_split_char(full@, '|'),
                    full@ == spec_trim(node.text@),
                    pieces_unquotable(*node),
                    union_pieces(ps, 0, Seq::empty()) == union_pieces(
                        ps,
                        j as int,
                        chars_list(out@),
                    ),
                decreases parts@.len() - j,
            {
                let tp = trim(parts[j].as_slice());
                assert(ps[j as int] == parts@[j as int]@);
                assert(!lone_quote(spec_trim(ps[j as int])));
                let u = unquote_exec(tp.as_slice());
                if u.len() > 0 {
                    let ghost before = out@;
                    let ghost uv = u@;
                    out.push(u);
                    assert(chars_list(out@) =~= chars_list(before).push(uv));
                }
                j = j + 1;
            }
            return Ok(BicepType::Union(string_list(&out)));
        }
    }
    Ok(BicepType::Union(string_list(&values)))
}

proof fn lemma_types_ok_parts(n: SyntaxNode, i: int)
    requires
        types_ok(n),
        0 <= i < n.children@.len(),
    ensures
        types_ok(n.children@[i]),
        unions_read_ok(n),
        decorators_shaped(n),
{
    lemma_types_ok_child(n, 0, i);
}

/// Parses a type node: its type and whether it is nullable.
pub fn parse_type_node(node: &SyntaxNode) -> (r: Result<(BicepType, bool), BicepParserError>)
    requires
        types_ok(*node),
        type_node_ok(*node),
    ensures
        r matches Ok((t, b)) && (t@, b) == type_node_model(*node),
    decreases node, 5int, 0int,
{
    if has_kind(node, "primitive_type") {
        let t = trimmed_text(node);
        return Ok((prim_type_exec(t.as_slice()), false));
    }
    if has_kind(node, "nullable_type") {
        let mut i: usize = 0;
        while i < node.children.len()
            invariant
                i <= node.children@.len(),
                types_ok(*node),
                kind_is(*node, "nullable_type"@),
                type_node_model(*node) == (nullable_first(*node, 0), true),
                nullable_first(*node, 0) == nullable_first(*node, i as int),
                nullable_first_ok(*node, 0) == nullable_first_ok(*node, i as int),
            decreases node.children@.len() - i,
        {
            if !has_kind(&node.children[i], "?") {
                proof {
                    lemma_types_ok_parts(*node, i as int);
                    assert(decreases_to!(*node => node.children@[i as int]));
                }
                let (t, _) = parse_type_node(&node.children[i])?;
                return Ok((t, true));
            }
            i = i + 1;
        }
        return Ok((BicepType::String, true));
    }
    let mut ty = BicepType::String;
    let mut nl = false;
    let mut i: usize = 0;
    while i < node.children.len()
        invariant
            i <= node.children@.len(),
            types_ok(*node),
            type_node_ok(*node),
            !kind_is(*node, "primitive_type"@),
            !kind_is(*node, "nullable_type"@),
            tn_scan(*node, 0, TypeView::Str, false) == tn_scan(*node, i as int, ty@, nl),
        decreases node.children@.len() - i,
    {
        let c = &node.children[i];
        proof {
            lemma_types_ok_parts(*node, i as int);
            assert(decreases_to!(*node => node.children@[i as int]));
        }
        if has_kind(c, "primitive_type") {
            let t = trimmed_text(c);
            ty = prim_type_exec(t.as_slice());
        } else if has_kind(c, "object") {
            let props = parse_inline_object_type(c)?;
            ty = BicepType::Object(Some(props));
            proof {
                lemma_type_view_object(ty);
            }
        } else if has_kind(c, "array_type") {
            ty = parse_array_type(c)?;
        } else if has_kind(c, "union_type") {
            ty = parse_union_type(c)?;
        } else if has_kind(c, "nullable_type") {
            let (t, _) = parse_type_node(c)?;
            ty = t;
            nl = true;
        } else if has_kind(c, "identifier") || has_kind(c, "type_reference") {
            let t = trimmed_text(c);
            ty = BicepType::CustomType(string_of(t.as_slice()));
        } else if has_kind(c, "?") {
            nl = true;
        }
        i = i + 1;
    }
    if node.children.len() == 0 {
        let t = trimmed_text(node);
        if contains_str(t.as_slice(), "|") {
            ty = parse_union_type(node)?;
        } else if ends_with(t.as_slice(), chars_of("[]").as_slice()) {
            ty = parse_array_type(node)?;
        } else if ends_with(t.as_slice(), chars_of("?").as_slice()) {
            proof {
                reveal_strlit("?");
            }
            nl = true;
            let inner = slice_chars(t.as_slice(), 0, t.len() - 1);
            ty = prim_or_custom_exec(inner.as_slice());
        } else {
            ty = prim_or_custom_exec(t.as_slice());
        }
    }
    Ok((ty, nl))
}

/// Parses an array type: its element type.
pub fn parse_array_type(node: &SyntaxNode) -> (r: Result<BicepType, BicepParserError>)
    requires
        types_ok(*node),
    ensures
        r matches Ok(t) && t@ == array_model(*node),
    decreases node, 3int, 0int,
{
    proof {
        reveal_with_fuel(type_view, 2);
    }
    if node.children.len() == 0 {
        let t = trimmed_text(node);
        if ends_with(t.as_slice(), chars_of("[]").as_slice()) {
            proof {
                reveal_strlit("[]");
            }
            let e = slice_chars(t.as_slice(), 0, t.len() - 2);
            return Ok(BicepType::Array(Box::new(prim_or_custom_exec(e.as_slice()))));
        }
        return Ok(BicepType::Array(Box::new(BicepType::String)));
    }
    let mut i: usize = 0;
    while i < node.children.len()
        invariant
            i <= node.children@.len(),
            node.children@.len() > 0,
            types_ok(*node),
            array_model(*node) == TypeView::Array(Box::new(array_first(*node, 0))),
            array_first(*node, 0) == array_first(*node, i as int),
        decreases node.children@.len() - i,
    {
        let c = &node.children[i];
        proof {
            lemma_types_ok_parts(*node, i as int);
            assert(decreases_to!(*node => node.children@[i as int]));
        }
        if has_kind(c, "type") {
            let (t, _) = parse_type_node(c)?;
            return Ok(BicepType::Array(Box::new(t)));
        } else if has_kind(c, "primitive_type") {
            let t = trimmed_text(c);
            return Ok(BicepType::Array(Box::new(prim_type_exec(t.as_slice()))));
        } else if has_kind(c, "array_type") {
            let t = parse_array_type(c)?;
            return Ok(BicepType::Array(Box::new(t)));
        } else if has_kind(c, "union_type") {
            let t = parse_union_type(c)?;
            return Ok(BicepType::Array(Box::new(t)));
        } else if has_kind(c, "identifier") || has_kind(c, "type_reference") {
            let t = trimmed_text(c);
            let name = string_of(t.as_slice());
            let inner = BicepType::CustomType(name);
            assert(type_view(inner) == TypeView::Custom(spec_trim(c.text@)));
            assert(array_first(*node, i as int) == TypeView::Custom(spec_trim(c.text@)));
            return Ok(BicepType::Array(Box::new(inner)));
        }
        i = i + 1;
    }
    Ok(BicepType::Array(Box::new(BicepType::String)))
}

/// `with_decorators` on a parameter.
fn apply_decorators(p: &mut BicepParameter, pend: &Vec<BicepDecorator>)
    ensures
        final(p)@ == with_decorators(old(p)@, decorators_view(pend@)),
{
    if pend.len() == 0 {
        assert(decorators_view(pend@).len() == 0);
        return;
    }
    if p.description.is_none() {
        p.description = super::decorators::extract_description_from_decorators(pend.as_slice());
    }
    let (_, metadata, min_length, max_length, min_value, max_value, is_secure, is_sealed) =
        process_common_decorators(pend.as_slice());
    match metadata {
        Some(m) => {
            p.metadata = m;
        },
        None => {},
    }
    if min_length.is_some() {
        p.min_length = min_length;
    }
    if max_length.is_some() {
        p.max_length = max_length;
    }
    if min_value.is_some() {
        p.min_value = min_value;
    }
    if max_value.is_some() {
        p.max_value = max_value;
    }
    p.is_secure = is_secure;
    p.is_sealed = is_sealed;
}

/// Parses the properties of an inline object type, each with the decorators
/// that precede it.
pub fn parse_inline_object_type(node: &SyntaxNode) -> (r: Result<
    OrderedMap<BicepParameter>,
    BicepParserError,
>)
    requires
        types_ok(*node),
    ensures
        r matches Ok(m) && params_view(m@) == inline_object_model(*node),
    decreases node, 3int, 0int,
{
    let mut props: OrderedMap<BicepParameter> = OrderedMap::new();
    let mut pending: Vec<BicepDecorator> = Vec::new();
    let mut i: usize = 0;
    assert(params_view(props@) =~= Seq::empty());
    assert(decorators_view(pending@) =~= Seq::empty());
    while i < node.children.len()
        invariant
            i <= node.children@.len(),
            types_ok(*node),
            inline_scan(*node, 0, Seq::empty(), Seq::empty()) == inline_scan(
                *node,
                i as int,
                decorators_view(pending@),
                params_view(props@),
            ),
        decreases node.children@.len() - i,
    {
        let c = &node.children[i];
        proof {
            lemma_types_ok_parts(*node, i as int);
            assert(decreases_to!(*node => node.children@[i as int]));
        }
        if has_kind(c, "decorators") {
            assert(decorators_shaped(*c));
            match parse_decorators(c) {
                Ok(ds) => {
                    let ghost before = pending@;
                    let ghost dsv = ds@;
                    let mut k: usize = 0;
                    while k < ds.len()
                        invariant
                            k <= ds@.len(),
                            ds@ == dsv,
                            decorators_view(pending@) == decorators_view(before) + decorators_view(
                                dsv.subrange(0, k as int),
                            ),
                        decreases ds@.len() - k,
                    {
                        let d = super::decorators::clone_decorator(&ds[k]);
                        let ghost pv = pending@;
                        proof {
                            super::lemma_decorators_view_push(pv, d);
                            super::lemma_decorators_view_push(dsv.subrange(0, k as int), dsv[k as int]);
                            assert(dsv.subrange(0, k + 1) =~= dsv.subrange(0, k as int).push(dsv[k as int]));
                        }
                        pending.push(d);
                        k = k + 1;
                        assert(decorators_view(pending@) =~= decorators_view(before)
                            + decorators_view(dsv.subrange(0, k as int)));
                    }
                    assert(dsv.subrange(0, ds@.len() as int) =~= dsv);
                },
                Err(_) => {},
            }
        } else if has_kind(c, "object_property") {
            match parse_inline_property(c) {
                Ok((name, param)) => {
                    let mut p = param;
                    apply_decorators(&mut p, &pending);
                    proof {
                        lemma_params_view_insert(props@, name, p);
                    }
                    props.insert(name, p);
                    pending = Vec::new();
                    assert(decorators_view(pending@) =~= Seq::empty());
                },
                Err(_) => {},
            }
        }
        i = i + 1;
    }
    Ok(props)
}

/// Parses a property of an inline object type: its name and its type.
fn parse_inline_property(node: &SyntaxNode) -> (r: Result<(String, BicepParameter), BicepParserError>)
    requires
        types_ok(*node),
        node.children@.len() >= 3 ==> type_node_ok(node.children@[2]),
    ensures
        match property_model(*node) {
            Some((name, p)) => r matches Ok((n, x)) && n@ == name && x@ == p,
            None => r is Err,
        },
    decreases node, 1int, 0int,
{
    if node.children.len() < 3 {
        return Err(BicepParserError::ParseError("Invalid object property structure".to_string()));
    }
    let name = string_of(trimmed_text(&node.children[0]).as_slice());
    let t = &node.children[2];
    proof {
        lemma_types_ok_parts(*node, 2);
        assert(decreases_to!(*node => node.children@[2]));
    }
    let mut param = default_parameter();
    if has_kind(t, "object") {
        let props = parse_inline_object_type(t)?;
        param.parameter_type = BicepType::Object(Some(props));
        proof {
            lemma_type_view_object(param.parameter_type);
        }
        param.is_nullable = false;
    } else {
        let (ty, nl) = parse_type_node(t)?;
        param.parameter_type = ty;
        param.is_nullable = nl;
    }
    Ok((name, param))
}

/// Parses the type of a property: from its children, else from its text.
pub fn parse_property_type(node: &SyntaxNode) -> (r: Result<BicepType, BicepParserError>)
    requires
        types_ok(*node),
        property_type_ok(*node),
    ensures
        r matches Ok(t) && t@ == property_type_model(*node),
{
    let mut acc: Option<BicepType> = None;
    let mut i: usize = 0;
    while i < node.children.len()
        invariant
            i <= node.children@.len(),
            types_ok(*node),
            pt_scan(*node, 0, None) == pt_scan(*node, i as int, opt_type_view(acc)),
        decreases node.children@.len() - i,
    {
        let c = &node.children[i];
        proof {
            lemma_types_ok_parts(*node, i as int);
        }
        if has_kind(c, "primitive_type") {
            let t = trimmed_text(c);
            acc = Some(prim_type_exec(t.as_slice()));
        } else if has_kind(c, "array_type") {
            acc = Some(parse_array_type(c)?);
        } else if has_kind(c, "union_type") {
            acc = Some(parse_union_type(c)?);
        } else if has_kind(c, "ambient_type_reference") || has_kind(c, "type_reference")
            || has_kind(c, "identifier") || has_kind(c, "member_expression") {
            let t = trimmed_text(c);
            acc = Some(BicepType::CustomType(string_of(t.as_slice())));
        }
        i = i + 1;
    }
    match acc {
        Some(t) => Ok(t),
        None => {
            let t = trimmed_text(node);
            if eq_str(t.as_slice(), "string") || eq_str(t.as_slice(), "int") || eq_str(
                t.as_slice(),
                "bool",
            ) || eq_str(t.as_slice(), "object") {
                Ok(prim_type_exec(t.as_slice()))
            } else if contains_str(t.as_slice(), "|") {
                parse_union_type(node)
            } else if ends_with(t.as_slice(), chars_of("[]").as_slice()) {
                parse_array_type(node)
            } else {
                Ok(BicepType::CustomType(string_of(t.as_slice())))
            }
        },
    }
}

pub open spec fn opt_type_view(o: Option<BicepType>) -> Option<TypeView> {
    match o {
        Some(t) => Some(type_view(t)),
        None => None,
    }
}

} // verus!