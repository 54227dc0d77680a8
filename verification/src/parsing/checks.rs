//! Checks that a syntax tree is one the parser can read without failing:
//! each decides one of the conditions that the parsing functions require.
use vstd::prelude::*;

use super::decorators::{decorator_shaped, decorators_shaped};
use super::document::{declaration_ok, document_ok};
use super::imports::{from_index, import_path, unquoted};
use super::modules::{
    is_br, is_ts, module_decl_ok, module_source_text, source_slicing_fails, utf8_len,
};
use super::parameters::parameter_shaped;
use super::resources::{
    direct_loops_ok, for_expression, for_text_ok, loops_ok_from, resource_loops_ok,
};
use super::syntax::{kind_is, SyntaxNode};
use super::type_utils::{
    array_model, lone_quote, nullable_first_ok, pieces_unquotable, prim_type, property_type_ok,
    pt_scan, splits_text, strings_unquotable, type_node_ok, types_ok, types_ok_from, union_model,
    union_ok, union_splits_text, unions_read_ok,
};
use super::TypeView;
use super::values::has_kind;
use crate::text::{
    chars_of, contains_str, find_char, lemma_find_char, spec_split_char, spec_trim, split_char, trim,
    trim_char,
};

verus! {

fn is_lone_quote(t: &[char]) -> (r: bool)
    ensures
        r == lone_quote(t@),
{
    t.len() == 1 && (t[0] == '"' || t[0] == '\'')
}

fn trimmed(s: &str) -> (r: Vec<char>)
    ensures
        r@ == spec_trim(s@),
{
    let v = chars_of(s);
    trim(v.as_slice())
}

/// Decides `strings_unquotable`.
pub fn check_strings_unquotable(n: &SyntaxNode) -> (r: bool)
    ensures
        r == strings_unquotable(*n),
{
    let mut i: usize = 0;
    while i < n.children.len()
        invariant
            i <= n.children@.len(),
            forall|j: int|
                0 <= j < i && kind_is(#[trigger] n.children@[j], "string"@) ==> !lone_quote(
                    spec_trim(n.children@[j].text@),
                ),
        decreases n.children@.len() - i,
    {
        if has_kind(&n.children[i], "string") {
            let t = trimmed(n.children[i].text.as_str());
            if is_lone_quote(t.as_slice()) {
                return false;
            }
        }
        i = i + 1;
    }
    true
}

/// Decides `type_node_ok`.
pub fn check_type_node_ok(n: &SyntaxNode) -> (r: bool)
    ensures
        r == type_node_ok(*n),
{
    let t = trimmed(n.text.as_str());
    if !has_kind(n, "primitive_type") && !has_kind(n, "nullable_type") && n.children.len() == 0
        && contains_str(t.as_slice(), "|") {
        check_union_ok(n)
    } else {
        true
    }
}

/// Whether a child names a type for `pt_scan`.
fn names_property_type(c: &SyntaxNode) -> (r: bool)
    ensures
        r == (kind_is(*c, "primitive_type"@) || kind_is(*c, "array_type"@) || kind_is(
            *c,
            "union_type"@,
        ) || kind_is(*c, "ambient_type_reference"@) || kind_is(*c, "type_reference"@)
            || kind_is(*c, "identifier"@) || kind_is(*c, "member_expression"@)),
{
    has_kind(c, "primitive_type") || has_kind(c, "array_type") || has_kind(c, "union_type")
        || has_kind(c, "ambient_type_reference") || has_kind(c, "type_reference") || has_kind(
        c,
        "identifier",
    ) || has_kind(c, "member_expression")
}

proof fn lemma_pt_scan_some(n: SyntaxNode, i: int, acc: Option<TypeView>)
    requires
        acc is Some,
    ensures
        pt_scan(n, i, acc) is Some,
    decreases n.children@.len() - i,
{
    if 0 <= i < n.children@.len() {
        let c = n.children@[i];
        if kind_is(c, "primitive_type"@) {
            lemma_pt_scan_some(n, i + 1, Some(prim_type(spec_trim(c.text@))));
        } else if kind_is(c, "array_type"@) {
            lemma_pt_scan_some(n, i + 1, Some(array_model(c)));
        } else if kind_is(c, "union_type"@) {
            lemma_pt_scan_some(n, i + 1, Some(union_model(c)));
        } else if kind_is(c, "ambient_type_reference"@) || kind_is(c, "type_reference"@)
            || kind_is(c, "identifier"@) || kind_is(c, "member_expression"@) {
            lemma_pt_scan_some(n, i + 1, Some(TypeView::Custom(spec_trim(c.text@))));
        } else {
            lemma_pt_scan_some(n, i + 1, acc);
        }
    }
}

/// Decides `property_type_ok`.
pub fn check_property_type_ok(n: &SyntaxNode) -> (r: bool)
    ensures
        r == property_type_ok(*n),
{
    let mut i: usize = 0;
    while i < n.children.len()
        invariant
            i <= n.children@.len(),
            pt_scan(*n, 0, None) == pt_scan(*n, i as int, None),
        decreases n.children@.len() - i,
    {
        if names_property_type(&n.children[i]) {
            proof {
                let c = n.children@[i as int];
                if kind_is(c, "primitive_type"@) {
                    lemma_pt_scan_some(*n, i + 1, Some(prim_type(spec_trim(c.text@))));
                } else if kind_is(c, "array_type"@) {
                    lemma_pt_scan_some(*n, i + 1, Some(array_model(c)));
                } else if kind_is(c, "union_type"@) {
                    lemma_pt_scan_some(*n, i + 1, Some(union_model(c)));
                } else {
                    lemma_pt_scan_some(*n, i + 1, Some(TypeView::Custom(spec_trim(c.text@))));
                }
            }
            return true;
        }
        i = i + 1;
    }
    let t = trimmed(n.text.as_str());
    if contains_str(t.as_slice(), "|") {
        check_union_ok(n)
    } else {
        true
    }
}

/// Decides `nullable_first_ok` from the first child on.
fn check_nullable_first_ok(n: &SyntaxNode) -> (r: bool)
    ensures
        r == nullable_first_ok(*n, 0),
{
    let mut i: usize = 0;
    while i < n.children.len()
        invariant
            i <= n.children@.len(),
            nullable_first_ok(*n, 0) == nullable_first_ok(*n, i as int),
        decreases n.children@.len() - i,
    {
        if !has_kind(&n.children[i], "?") {
            return check_type_node_ok(&n.children[i]);
        }
        i = i + 1;
    }
    true
}

/// Decides `unions_read_ok`.
pub fn check_unions_read_ok(n: &SyntaxNode) -> (r: bool)
    ensures
        r == unions_read_ok(*n),
{
    if has_kind(n, "union_type") && !check_union_ok(n) {
        return false;
    }
    if has_kind(n, "target_scope_assignment") && !check_strings_unquotable(n) {
        return false;
    }
    if has_kind(n, "type") && !(check_type_node_ok(n) && check_property_type_ok(n)) {
        return false;
    }
    if has_kind(n, "nullable_type") && !check_nullable_first_ok(n) {
        return false;
    }
    if has_kind(n, "object_property") && n.children.len() >= 3 && !check_type_node_ok(
        &n.children[2],
    ) {
        return false;
    }
    true
}

/// Decides `union_ok`.
pub fn check_union_ok(n: &SyntaxNode) -> (r: bool)
    ensures
        r == union_ok(*n),
{
    let mut i: usize = 0;
    while i < n.children.len()
        invariant
            i <= n.children@.len(),
            forall|j: int|
                0 <= j < i && kind_is(#[trigger] n.children@[j], "string"@) ==> !lone_quote(
                    spec_trim(n.children@[j].text@),
                ),
        decreases n.children@.len() - i,
    {
        if has_kind(&n.children[i], "string") {
            let t = trimmed(n.children[i].text.as_str());
            if is_lone_quote(t.as_slice()) {
                return false;
            }
        }
        i = i + 1;
    }
    assert(strings_unquotable(*n));
    if !splits_text(n) {
        return true;
    }
    let full = trimmed(n.text.as_str());
    let parts = split_char(full.as_slice(), '|');
    let ghost ps = parts@.map_values(|x: Vec<char>| x@);
    assert(ps == spec_split_char(spec_trim(n.text@), '|'));
    let mut j: usize = 0;
    while j < parts.len()
        invariant
            j <= parts@.len(),
            ps == parts@.map_values(|x: Vec<char>| x@),
            ps == spec_split_char(spec_trim(n.text@), '|'),
            forall|k: int| 0 <= k < j ==> !lone_quote(spec_trim(#[trigger] ps[k])),
            union_splits_text(*n),
        decreases parts@.len() - j,
    {
        let t = trim(parts[j].as_slice());
        assert(ps[j as int] == parts@[j as int]@);
        if is_lone_quote(t.as_slice()) {
            assert(lone_quote(spec_trim(spec_split_char(spec_trim(n.text@), '|')[j as int])));
            assert(!pieces_unquotable(*n));
            return false;
        }
        j = j + 1;
    }
    true
}

/// Decides `decorators_shaped`.
pub fn check_decorators_shaped(n: &SyntaxNode) -> (r: bool)
    ensures
        r == decorators_shaped(*n),
{
    let mut i: usize = 0;
    while i < n.children.len()
        invariant
            i <= n.children@.len(),
            forall|j: int| 0 <= j < i ==> decorator_shaped(#[trigger] n.children@[j]),
        decreases n.children@.len() - i,
    {
        if has_kind(&n.children[i], "decorator") && n.children[i].children.len() < 2 {
            assert(!decorator_shaped(n.children@[i as int]));
            return false;
        }
        i = i + 1;
    }
    true
}

/// Decides `types_ok`.
pub fn check_types_ok(n: &SyntaxNode) -> (r: bool)
    ensures
        r == types_ok(*n),
    decreases n,
{
    let mut ok = check_unions_read_ok(n) && check_decorators_shaped(n);
    let mut i: usize = 0;
    while i < n.children.len()
        invariant
            i <= n.children@.len(),
            types_ok(*n) == (ok && types_ok_from(*n, i as int)),
        decreases n.children@.len() - i,
    {
        proof {
            assert(decreases_to!(*n => n.children@[i as int]));
        }
        let c = check_types_ok(&n.children[i]);
        ok = ok && c;
        i = i + 1;
    }
    ok
}

/// Decides `for_text_ok`.
pub fn check_for_text(t: &[char]) -> (r: bool)
    ensures
        r == for_text_ok(t@),
{
    match super::resources::for_expression_exec(t) {
        Some(fe) => match crate::text::find_str(fe.as_slice(), " in ") {
            Some(k) => k >= 4,
            None => true,
        },
        None => true,
    }
}

/// Decides `resource_loops_ok`.
pub fn check_resource_loops(n: &SyntaxNode) -> (r: bool)
    ensures
        r == resource_loops_ok(*n),
    decreases n,
{
    let mut ok = true;
    if has_kind(n, "resource_declaration") {
        let mut i: usize = 0;
        while i < n.children.len()
            invariant
                i <= n.children@.len(),
                ok == (forall|j: int|
                    0 <= j < i && kind_is(#[trigger] n.children@[j], "for_statement"@)
                        ==> for_text_ok(n.children@[j].text@)),
            decreases n.children@.len() - i,
        {
            if has_kind(&n.children[i], "for_statement") {
                let t = chars_of(n.children[i].text.as_str());
                let good = check_for_text(t.as_slice());
                ok = ok && good;
            }
            i = i + 1;
        }
    }
    assert(ok == (kind_is(*n, "resource_declaration"@) ==> direct_loops_ok(*n)));
    let mut i: usize = 0;
    while i < n.children.len()
        invariant
            i <= n.children@.len(),
            resource_loops_ok(*n) == (ok && loops_ok_from(*n, i as int)),
        decreases n.children@.len() - i,
    {
        proof {
            assert(decreases_to!(*n => n.children@[i as int]));
        }
        let c = check_resource_loops(&n.children[i]);
        ok = ok && c;
        i = i + 1;
    }
    ok
}

/// Decides `source_slicing_fails`.
pub fn source_slicing_fails_exec(s: &[char]) -> (r: bool)
    ensures
        r == source_slicing_fails(s@),
{
    match find_char(s, ':') {
        None => false,
        Some(p) => {
            proof {
                lemma_find_char(s@, ':');
            }
            if p == 0 {
                true
            } else {
                let l0 = utf8_len_exec(s[0]);
                if l0 == 2 {
                    false
                } else if l0 > 2 {
                    true
                } else if p == 1 {
                    true
                } else {
                    utf8_len_exec(s[1]) != 1 || ((is_br_exec(s[0], s[1]) || is_ts_exec(s[0], s[1]))
                        && utf8_len_exec(s[2]) != 1)
                }
            }
        },
    }
}

fn utf8_len_exec(c: char) -> (r: u8)
    ensures
        r == utf8_len(c),
{
    if (c as u32) < 0x80 {
        1
    } else if (c as u32) < 0x800 {
        2
    } else if (c as u32) < 0x10000 {
        3
    } else {
        4
    }
}

fn is_br_exec(a: char, b: char) -> (r: bool)
    ensures
        r == is_br(a, b),
{
    (a == 'b' || a == 'B') && (b == 'r' || b == 'R')
}

fn is_ts_exec(a: char, b: char) -> (r: bool)
    ensures
        r == is_ts(a, b),
{
    (a == 't' || a == 'T') && (b == 's' || b == 'S')
}

/// Decides `module_decl_ok`.
pub fn check_module_decl(n: &SyntaxNode) -> (r: bool)
    ensures
        r == module_decl_ok(*n),
{
    let mut i: usize = 0;
    while i < n.children.len()
        invariant
            i <= n.children@.len(),
            forall|j: int|
                0 <= j < i && kind_is(#[trigger] n.children@[j], "for_statement"@)
                    ==> for_text_ok(spec_trim(n.children@[j].text@)),
        decreases n.children@.len() - i,
    {
        let c = &n.children[i];
        if has_kind(c, "for_statement") {
            let t = trimmed(c.text.as_str());
            if !check_for_text(t.as_slice()) {
                return false;
            }
        }
        i = i + 1;
    }
    true
}

/// Decides `declaration_ok`.
pub fn check_declaration(c: &SyntaxNode) -> (r: bool)
    ensures
        r == declaration_ok(*c),
{
    if has_kind(c, "parameter_declaration") && !(c.children.len() >= 3 && c.children.len() != 4
        && check_type_node_ok(&c.children[2])) {
        return false;
    }
    if has_kind(c, "module_declaration") && !check_module_decl(c) {
        return false;
    }
    if (has_kind(c, "user_defined_function") || has_kind(c, "function_declaration"))
        && c.children.len() >= 6 && !check_property_type_ok(&c.children[3]) {
        return false;
    }
    true
}

/// Decides `document_ok`: whether the document parser can read the tree.
pub fn check_document(root: &SyntaxNode) -> (r: bool)
    ensures
        r == document_ok(*root),
{
    if !check_types_ok(root) || !check_resource_loops(root) {
        return false;
    }
    let mut i: usize = 0;
    while i < root.children.len()
        invariant
            i <= root.children@.len(),
            forall|j: int| 0 <= j < i ==> declaration_ok(#[trigger] root.children@[j]),
        decreases root.children@.len() - i,
    {
        if !check_declaration(&root.children[i]) {
            return false;
        }
        i = i + 1;
    }
    true
}

} // verus!
