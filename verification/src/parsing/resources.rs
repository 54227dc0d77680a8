//! Resource declarations: type and API version, name, parent, scope,
//! dependencies, condition, loop and batch size, and the child resources
//! declared inside a resource.
use vstd::prelude::*;

use super::decorators::{named, is_named};
use super::syntax::{kind_is, SyntaxNode};
use super::values::{has_kind, lemma_first_kind_from, parse_value_node, value_model};
use super::{
    clone_value, decorators_view, entries_view, lemma_value_view_parts, opt_value_view, str_view,
    value_view, view_text, BicepDecorator, BicepParserError, BicepValue, DecoratorView,
    ValueView,
};
use crate::ordered_map::{get_key, OrderedMap};
use crate::text::{
    append_chars, append_str, chars_of, find, find_char, is_ws, is_ws_exec, join,
    lemma_find_from_some, occurs_at, slice_chars, spec_contains, spec_find, spec_join,
    spec_split_char, spec_trim, spec_trim_char, split_char, string_of, trim, trim_char,
};

verus! {

/// A resource declaration.
#[derive(Debug)]
pub struct BicepResource {
    /// Optional description extracted from decorators
    pub description: Option<String>,
    /// The Azure resource type (e.g., "Microsoft.Storage/storageAccounts")
    pub resource_type: String,
    /// The API version for the resource type
    pub api_version: String,
    /// Whether this references an existing resource rather than creating a new one
    pub existing: bool,
    /// The deployment scope for the resource
    pub scope: Option<BicepValue>,
    /// The name of the resource instance
    pub name: String,
    /// Parent resource reference for nested resources
    pub parent: Option<String>,
    /// List of resources this resource depends on
    pub depends_on: Option<Vec<String>>,
    /// Condition that must be true for the resource to be deployed
    pub condition: Option<String>,
    /// Loop configuration for creating multiple instances
    pub loop_statement: Option<String>,
    /// Batch size for parallel deployment in loops
    pub batch_size: Option<i64>,
}

/// The content of a `BicepResource`.
pub struct ResourceView {
    pub description: Option<Seq<char>>,
    pub resource_type: Seq<char>,
    pub api_version: Seq<char>,
    pub existing: bool,
    pub scope: Option<ValueView>,
    pub name: Seq<char>,
    pub parent: Option<Seq<char>>,
    pub depends_on: Option<Seq<Seq<char>>>,
    pub condition: Option<Seq<char>>,
    pub loop_statement: Option<Seq<char>>,
    pub batch_size: Option<i64>,
}

pub open spec fn strings_view(v: Seq<String>) -> Seq<Seq<char>> {
    v.map_values(|s: String| s@)
}

pub open spec fn opt_strings_view(o: Option<Vec<String>>) -> Option<Seq<Seq<char>>> {
    match o {
        Some(v) => Some(strings_view(v@)),
        None => None,
    }
}

impl View for BicepResource {
    type V = ResourceView;

    open spec fn view(&self) -> ResourceView {
        ResourceView {
            description: str_view(self.description),
            resource_type: self.resource_type@,
            api_version: self.api_version@,
            existing: self.existing,
            scope: opt_value_view(self.scope),
            name: self.name@,
            parent: str_view(self.parent),
            depends_on: opt_strings_view(self.depends_on),
            condition: str_view(self.condition),
            loop_statement: str_view(self.loop_statement),
            batch_size: self.batch_size,
        }
    }
}

pub open spec fn resources_view(s: Seq<(String, BicepResource)>) -> Seq<(Seq<char>, ResourceView)> {
    Seq::new(s.len(), |i: int| (s[i].0@, s[i].1@))
}

// ---------------------------------------------------------------
// Models
// ---------------------------------------------------------------

/// How a resource's name is read from its `name` property.
pub open spec fn conv_name(v: ValueView) -> Seq<char> {
    match v {
        ValueView::Str(s) => s,
        ValueView::Ident(id) => "${"@ + id + "}"@,
        _ => view_text(v),
    }
}

/// How a reference (parent, dependency) is read from a property value.
pub open spec fn conv_ref(v: ValueView) -> Seq<char> {
    match v {
        ValueView::Str(s) => s,
        ValueView::Ident(id) => id,
        _ => view_text(v),
    }
}

/// The dependencies after reading a `dependsOn` value; an empty array leaves them as they were.
pub open spec fn deps_update(cur: Option<Seq<Seq<char>>>, v: ValueView) -> Option<Seq<Seq<char>>> {
    match v {
        ValueView::Array(ds) => if ds.len() > 0 {
            Some(ds.map_values(|d: ValueView| conv_ref(d)))
        } else {
            cur
        },
        _ => Some(seq![conv_ref(v)]),
    }
}

/// The resource type and API version of a type string `'Type@version'`.
pub open spec fn type_and_api(text: Seq<char>) -> (Seq<char>, Option<Seq<char>>) {
    let t = spec_trim_char(text, '\'');
    if spec_find(t, seq!['@']) is Some {
        let parts = spec_split_char(t, '@');
        (parts[0], if parts.len() > 1 { Some(parts[1]) } else { None })
    } else {
        (t, None)
    }
}

/// `items` with the trimmed `cur` added, unless that is empty.
pub open spec fn push_item(items: Seq<Seq<char>>, cur: Seq<char>) -> Seq<Seq<char>> {
    if spec_trim(cur).len() > 0 {
        items.push(spec_trim(cur))
    } else {
        items
    }
}

/// The comma-separated items between the first `[` and the next unquoted `]`.
pub open spec fn bscan(
    t: Seq<char>,
    i: int,
    started: bool,
    inq: bool,
    cur: Seq<char>,
    items: Seq<Seq<char>>,
) -> Seq<Seq<char>>
    decreases t.len() - i,
{
    if i < 0 || i >= t.len() {
        items
    } else {
        let c = t[i];
        if !started {
            bscan(t, i + 1, c == '[', inq, cur, items)
        } else if c == ']' && !inq {
            push_item(items, cur)
        } else if c == '\'' || c == '"' {
            bscan(t, i + 1, true, !inq, cur.push(c), items)
        } else if c == ',' && !inq {
            bscan(t, i + 1, true, inq, Seq::empty(), push_item(items, cur))
        } else {
            bscan(t, i + 1, true, inq, cur.push(c), items)
        }
    }
}

/// The comma-separated items of `t`, commas inside quotes kept.
pub open spec fn qscan(t: Seq<char>, i: int, inq: bool, cur: Seq<char>, items: Seq<Seq<char>>) -> Seq<
    Seq<char>,
>
    decreases t.len() - i,
{
    if i < 0 || i >= t.len() {
        push_item(items, cur)
    } else {
        let c = t[i];
        if c == '\'' || c == '"' {
            qscan(t, i + 1, !inq, cur.push(c), items)
        } else if c == ',' && !inq {
            qscan(t, i + 1, inq, Seq::empty(), push_item(items, cur))
        } else {
            qscan(t, i + 1, inq, cur.push(c), items)
        }
    }
}

/// An array literal `[a, b, c]` written from its items.
pub open spec fn bracketed(items: Seq<Seq<char>>) -> Seq<char> {
    "["@ + spec_join(items, ", "@) + "]"@
}

/// What a resource declaration has read so far.
pub struct ResScan {
    pub identifier: Seq<char>,
    pub resource_type: Seq<char>,
    pub api_version: Option<Seq<char>>,
    pub existing: bool,
    pub name: Seq<char>,
    pub parent: Option<Seq<char>>,
    pub scope: Option<ValueView>,
    pub depends_on: Option<Seq<Seq<char>>>,
    pub condition: Option<Seq<char>>,
    pub loop_iterator: Option<Seq<char>>,
    pub loop_array: Option<Seq<char>>,
}

pub open spec fn res_start() -> ResScan {
    ResScan {
        identifier: Seq::empty(),
        resource_type: Seq::empty(),
        api_version: None,
        existing: false,
        name: Seq::empty(),
        parent: None,
        scope: None,
        depends_on: None,
        condition: None,
        loop_iterator: None,
        loop_array: None,
    }
}

/// The `resource` keyword: the identifier and the type string after it.
pub open spec fn head_fields(st: ResScan, cs: Seq<SyntaxNode>, i: int) -> ResScan {
    if i + 2 < cs.len() {
        let st1 = if kind_is(cs[i + 1], "identifier"@) {
            ResScan { identifier: cs[i + 1].text@, ..st }
        } else {
            st
        };
        if kind_is(cs[i + 2], "string"@) {
            let (ty, api) = type_and_api(cs[i + 2].text@);
            ResScan {
                resource_type: ty,
                api_version: if api is Some {
                    api
                } else {
                    st1.api_version
                },
                ..st1
            }
        } else {
            st1
        }
    } else {
        st
    }
}

/// The properties object: name, parent, scope and dependencies.
pub open spec fn object_fields(st: ResScan, props: Seq<(Seq<char>, ValueView)>) -> ResScan {
    ResScan {
        name: match get_key(props, "name"@) {
            Some(v) => conv_name(v),
            None => st.name,
        },
        parent: match get_key(props, "parent"@) {
            Some(v) => Some(conv_ref(v)),
            None => st.parent,
        },
        scope: match get_key(props, "scope"@) {
            Some(v) => Some(v),
            None => st.scope,
        },
        depends_on: match get_key(props, "dependsOn"@) {
            Some(v) => deps_update(st.depends_on, v),
            None => st.depends_on,
        },
        ..st
    }
}

/// The iterator and array of a loop read from the declaration's whole text.
pub open spec fn array_fields(st: ResScan, text: Seq<char>, full: Seq<char>) -> ResScan {
    let st1 = if spec_contains(text, "["@) && spec_contains(text, "]"@) {
        let items = bscan(text, 0, false, false, Seq::empty(), Seq::empty());
        if items.len() > 0 {
            ResScan { loop_array: Some(bracketed(items)), ..st }
        } else {
            st
        }
    } else {
        st
    };
    if spec_contains(full, "for"@) {
        match (spec_find(full, "for"@), spec_find(full, "in"@)) {
            (Some(f), Some(n)) => if f < n {
                let it = spec_trim(full.subrange(f + 3, n));
                let st2 = if it.len() > 0 {
                    ResScan { loop_iterator: Some(it), ..st1 }
                } else {
                    st1
                };
                if st2.loop_array is None {
                    let rest = full.subrange(n, full.len() as int);
                    match spec_find(rest, ":"@) {
                        Some(c) => {
                            let arr = spec_trim(full.subrange(n + 2, n + c));
                            if arr.len() > 0 {
                                ResScan { loop_array: Some(arr), ..st2 }
                            } else {
                                st2
                            }
                        },
                        None => match spec_find(rest, "{"@) {
                            Some(b) => {
                                let arr = spec_trim(full.subrange(n + 2, n + b));
                                if arr.len() > 0 {
                                    ResScan { loop_array: Some(arr), ..st2 }
                                } else {
                                    st2
                                }
                            },
                            None => st2,
                        },
                    }
                } else {
                    st2
                }
            } else {
                st1
            },
            _ => st1,
        }
    } else {
        st1
    }
}

/// The parent named after the `parent` keyword (the part before `::`).
pub open spec fn parent_text(t: Seq<char>) -> Seq<char> {
    match spec_find(t, "::"@) {
        Some(k) => spec_trim(t.subrange(0, k)),
        None => spec_trim(t),
    }
}

/// The condition of an `if` statement: from after `if ` through the `)` of `) {`.
pub open spec fn if_condition(t: Seq<char>) -> Option<Seq<char>> {
    match spec_find(t, "if "@) {
        Some(s) => match spec_find(t.subrange(s + 3, t.len() as int), ") {"@) {
            Some(e) => {
                let c = spec_trim(t.subrange(s + 3, s + 3 + e + 1));
                if c.len() > 0 {
                    Some(c)
                } else {
                    None
                }
            },
            None => None,
        },
        None => None,
    }
}

/// The loop expression of a `for` statement: from `for ` to the first `:`, trimmed.
pub open spec fn for_expression(t: Seq<char>) -> Option<Seq<char>> {
    match spec_find(t, "for "@) {
        Some(f) => match spec_find(t.subrange(f, t.len() as int), ":"@) {
            Some(c) => Some(spec_trim(t.subrange(f, f + c))),
            None => None,
        },
        None => None,
    }
}

/// A `for` statement whose text `for in ...` has no iterator cannot be
/// sliced; every other text can.
pub open spec fn for_text_ok(t: Seq<char>) -> bool {
    match for_expression(t) {
        Some(fe) => match spec_find(fe, " in "@) {
            Some(k) => k >= 4,
            None => true,
        },
        None => true,
    }
}

/// The iterator and array of a `for` statement.
pub open spec fn for_fields(st: ResScan, t: Seq<char>) -> ResScan {
    match for_expression(t) {
        Some(fe) => match spec_find(fe, " in "@) {
            Some(k) => {
                let it = spec_trim(fe.subrange(4, k));
                let ar = spec_trim(fe.subrange(k + 4, fe.len() as int));
                ResScan {
                    loop_iterator: if it.len() > 0 {
                        Some(it)
                    } else {
                        st.loop_iterator
                    },
                    loop_array: if ar.len() > 0 {
                        Some(ar)
                    } else {
                        st.loop_array
                    },
                    ..st
                }
            },
            None => st,
        },
        None => st,
    }
}

/// The effect of the `i`-th child of a resource declaration.
pub open spec fn res_step(st: ResScan, cs: Seq<SyntaxNode>, i: int, full: Seq<char>) -> ResScan {
    let c = cs[i];
    if kind_is(c, "resource"@) {
        head_fields(st, cs, i)
    } else if kind_is(c, "existing"@) {
        ResScan { existing: true, ..st }
    } else if kind_is(c, "object"@) {
        match value_model(c) {
            Some(ValueView::Object(props)) => object_fields(st, props),
            _ => st,
        }
    } else if kind_is(c, "array"@) {
        array_fields(st, c.text@, full)
    } else if kind_is(c, "parent"@) {
        if i + 1 < cs.len() {
            ResScan { parent: Some(parent_text(cs[i + 1].text@)), ..st }
        } else {
            st
        }
    } else if kind_is(c, "if_statement"@) {
        match if_condition(c.text@) {
            Some(cond) => ResScan { condition: Some(cond), ..st },
            None => st,
        }
    } else if kind_is(c, "for_statement"@) {
        for_fields(st, c.text@)
    } else {
        st
    }
}

pub open spec fn res_scan(cs: Seq<SyntaxNode>, i: int, st: ResScan, full: Seq<char>) -> ResScan
    decreases cs.len() - i,
{
    if i < 0 || i >= cs.len() {
        st
    } else {
        res_scan(cs, i + 1, res_step(st, cs, i, full), full)
    }
}

/// The first position at or after `i` whose character is not whitespace.
pub open spec fn first_non_ws(t: Seq<char>, i: int) -> Option<int>
    decreases t.len() - i,
{
    if i < 0 || i >= t.len() {
        None
    } else if !is_ws(t[i]) {
        Some(i)
    } else {
        first_non_ws(t, i + 1)
    }
}

/// The first position at or after `i` of a newline, comma or `}`.
pub open spec fn first_stop(t: Seq<char>, i: int) -> Option<int>
    decreases t.len() - i,
{
    if i < 0 || i >= t.len() {
        None
    } else if t[i] == '\n' || t[i] == ',' || t[i] == '}' {
        Some(i)
    } else {
        first_stop(t, i + 1)
    }
}

/// The parent written as `parent:` anywhere in the declaration's text.
pub open spec fn parent_from_full(full: Seq<char>) -> Option<Seq<char>> {
    match spec_find(full, "parent:"@) {
        Some(p) => {
            let after = full.subrange(p + 7, full.len() as int);
            let start = match first_non_ws(after, 0) {
                Some(k) => k,
                None => 0,
            };
            let end = match first_stop(after, start) {
                Some(k) => k,
                None => after.len() as int,
            };
            if start < end {
                Some(spec_trim(after.subrange(start, end)))
            } else {
                None
            }
        },
        None => None,
    }
}

/// The array of a loop read from the first `[...]` of the declaration's text.
pub open spec fn loop_array_fallback(full: Seq<char>) -> Option<Seq<char>> {
    match spec_find(full, "["@) {
        Some(a) => match spec_find(full.subrange(a, full.len() as int), "]"@) {
            Some(b) => {
                let items = qscan(full.subrange(a + 1, a + b), 0, false, Seq::empty(), Seq::empty());
                if items.len() > 0 {
                    Some(bracketed(items))
                } else {
                    None
                }
            },
            None => None,
        },
        None => None,
    }
}

/// Name and scope from an object's entries, where not yet known.
pub open spec fn direct_entry_scan(es: Seq<(Seq<char>, ValueView)>, j: int, st: ResScan) -> ResScan
    decreases es.len() - j,
{
    if j < 0 || j >= es.len() {
        st
    } else if es[j].0 == "name"@ && st.name.len() == 0 {
        direct_entry_scan(es, j + 1, ResScan { name: conv_name(es[j].1), ..st })
    } else if es[j].0 == "scope"@ && st.scope is None {
        direct_entry_scan(es, j + 1, ResScan { scope: Some(es[j].1), ..st })
    } else {
        direct_entry_scan(es, j + 1, st)
    }
}

/// Name and scope from the object children of the declaration.
pub open spec fn direct_scan(cs: Seq<SyntaxNode>, i: int, st: ResScan) -> ResScan
    decreases cs.len() - i,
{
    if i < 0 || i >= cs.len() {
        st
    } else if kind_is(cs[i], "object"@) && value_model(cs[i]) matches Some(ValueView::Object(p)) {
        direct_scan(cs, i + 1, direct_entry_scan(value_model(cs[i])->Some_0->Object_0, 0, st))
    } else {
        direct_scan(cs, i + 1, st)
    }
}

/// The object values anywhere in a node, in pre-order.
pub open spec fn objects_in(n: SyntaxNode) -> Seq<Seq<(Seq<char>, ValueView)>>
    decreases n, 1int, 0int,
{
    let own: Seq<Seq<(Seq<char>, ValueView)>> = if kind_is(n, "object"@) && value_model(
        n,
    ) matches Some(ValueView::Object(p)) {
        seq![value_model(n)->Some_0->Object_0]
    } else {
        Seq::empty()
    };
    own + objects_from(n, 0)
}

pub open spec fn objects_from(n: SyntaxNode, i: int) -> Seq<Seq<(Seq<char>, ValueView)>>
    decreases n, 0int, n.children@.len() - i,
{
    if i < 0 || i >= n.children@.len() {
        Seq::empty()
    } else {
        objects_in(n.children@[i]) + objects_from(n, i + 1)
    }
}

/// A name from the `name` entries of an object, where not yet known.
pub open spec fn name_entry_scan(es: Seq<(Seq<char>, ValueView)>, j: int, name: Seq<char>) -> Seq<
    char,
>
    decreases es.len() - j,
{
    if j < 0 || j >= es.len() {
        name
    } else if es[j].0 == "name"@ && name.len() == 0 {
        name_entry_scan(es, j + 1, conv_name(es[j].1))
    } else {
        name_entry_scan(es, j + 1, name)
    }
}

/// The name from the first of the objects that gives a non-empty one.
pub open spec fn nested_name(objs: Seq<Seq<(Seq<char>, ValueView)>>, i: int, name: Seq<char>) -> Seq<
    char,
>
    decreases objs.len() - i,
{
    if i < 0 || i >= objs.len() {
        name
    } else {
        let nm = name_entry_scan(objs[i], 0, name);
        if nm.len() > 0 {
            nm
        } else {
            nested_name(objs, i + 1, nm)
        }
    }
}

/// The loop statement written from the iterator and array.
pub open spec fn loop_statement(it: Option<Seq<char>>, ar: Option<Seq<char>>) -> Option<Seq<char>> {
    match (it, ar) {
        (Some(i), Some(a)) => Some("for "@ + i + " in "@ + a),
        (Some(i), None) => Some("for "@ + i),
        (None, Some(a)) => Some("for _ in "@ + a),
        (None, None) => None,
    }
}

/// The description and batch size the decorators of a resource give; a later
/// decorator overrides an earlier one.
pub open spec fn res_decorator_scan(
    ds: Seq<DecoratorView>,
    i: int,
    desc: Option<Seq<char>>,
    batch: Option<i64>,
) -> (Option<Seq<char>>, Option<i64>)
    decreases ds.len() - i,
{
    if i < 0 || i >= ds.len() {
        (desc, batch)
    } else {
        let d = ds[i];
        if named(d.name, "description"@) && d.argument is Str {
            res_decorator_scan(ds, i + 1, Some(d.argument->Str_0), batch)
        } else if named(d.name, "metadata"@) && d.argument is Object && get_key(
            d.argument->Object_0,
            "description"@,
        ) matches Some(ValueView::Str(t)) {
            res_decorator_scan(
                ds,
                i + 1,
                Some(get_key(d.argument->Object_0, "description"@)->Some_0->Str_0),
                batch,
            )
        } else if named(d.name, "batchSize"@) && d.argument is Int {
            res_decorator_scan(ds, i + 1, desc, Some(d.argument->Int_0))
        } else {
            res_decorator_scan(ds, i + 1, desc, batch)
        }
    }
}

/// The resource a declaration describes, before its children.
pub open spec fn main_resource(n: SyntaxNode, ds: Seq<DecoratorView>) -> ResourceView {
    let full = n.text@;
    let (desc, batch) = res_decorator_scan(ds, 0, None, None);
    let s1 = res_scan(n.children@, 0, res_start(), full);
    let s2 = match parent_from_full(full) {
        Some(p) => ResScan { parent: Some(p), ..s1 },
        None => s1,
    };
    let s3 = if s2.loop_iterator is Some && s2.loop_array is None {
        match loop_array_fallback(full) {
            Some(a) => ResScan { loop_array: Some(a), ..s2 },
            None => s2,
        }
    } else {
        s2
    };
    let s4 = direct_scan(n.children@, 0, s3);
    let name = if s4.name.len() == 0 {
        nested_name(objects_in(n), 0, s4.name)
    } else {
        s4.name
    };
    ResourceView {
        description: desc,
        resource_type: s4.resource_type,
        api_version: match s4.api_version {
            Some(a) => a,
            None => Seq::empty(),
        },
        existing: s4.existing,
        scope: s4.scope,
        name,
        parent: s4.parent,
        depends_on: s4.depends_on,
        condition: s4.condition,
        loop_statement: loop_statement(s4.loop_iterator, s4.loop_array),
        batch_size: batch,
    }
}

/// The identifier of a declaration (after the `resource` keyword).
pub open spec fn res_identifier(n: SyntaxNode) -> Seq<char> {
    res_scan(n.children@, 0, res_start(), n.text@).identifier
}

/// A child resource as its parent declares it: identifier prefixed, type
/// appended to the parent's, API version inherited where it has none.
pub open spec fn as_child(
    pid: Seq<char>,
    parent: ResourceView,
    e: (Seq<char>, ResourceView),
) -> (Seq<char>, ResourceView) {
    (
        pid + "::"@ + e.0,
        ResourceView {
            resource_type: parent.resource_type + "/"@ + e.1.resource_type,
            api_version: if e.1.api_version.len() == 0 {
                parent.api_version
            } else {
                e.1.api_version
            },
            ..e.1
        },
    )
}

/// All resources a declaration describes: itself first, then the resources
/// declared inside it, in source order.
pub open spec fn resource_model(n: SyntaxNode, ds: Seq<DecoratorView>) -> Seq<
    (Seq<char>, ResourceView),
>
    decreases n, 2int, 0int,
{
    let id = res_identifier(n);
    let main = main_resource(n, ds);
    seq![(id, main)] + children_from(n, 0, id, main)
}

/// The resources declared inside children `i..` of `n`.
pub open spec fn children_from(n: SyntaxNode, i: int, pid: Seq<char>, parent: ResourceView) -> Seq<
    (Seq<char>, ResourceView),
>
    decreases n, 1int, n.children@.len() - i,
{
    if i < 0 || i >= n.children@.len() {
        Seq::empty()
    } else {
        let c = n.children@[i];
        let here = if kind_is(c, "resource_declaration"@) {
            let sub = resource_model(c, Seq::empty());
            Seq::new(sub.len(), |j: int| as_child(pid, parent, sub[j]))
        } else {
            children_from(c, 0, pid, parent)
        };
        here + children_from(n, i + 1, pid, parent)
    }
}

/// The direct `for` statements of a node have iterators.
pub open spec fn direct_loops_ok(n: SyntaxNode) -> bool {
    forall|i: int|
        0 <= i < n.children@.len() && kind_is(#[trigger] n.children@[i], "for_statement"@)
            ==> for_text_ok(n.children@[i].text@)
}

/// Every `for` statement of a resource declaration in the tree has an iterator.
pub open spec fn resource_loops_ok(n: SyntaxNode) -> bool
    decreases n, 1int, 0int,
{
    (kind_is(n, "resource_declaration"@) ==> direct_loops_ok(n)) && loops_ok_from(n, 0)
}

/// `resource_loops_ok` holds of children `i..` of `n`.
pub open spec fn loops_ok_from(n: SyntaxNode, i: int) -> bool
    decreases n, 0int, n.children@.len() - i,
{
    if i < 0 || i >= n.children@.len() {
        true
    } else {
        resource_loops_ok(n.children@[i]) && loops_ok_from(n, i + 1)
    }
}

// ---------------------------------------------------------------
// Executable pieces
// ---------------------------------------------------------------

pub open spec fn opt_chars(o: Option<Vec<char>>) -> Option<Seq<char>> {
    match o {
        Some(v) => Some(v@),
        None => None,
    }
}

pub open spec fn chars_list(v: Seq<Vec<char>>) -> Seq<Seq<char>> {
    v.map_values(|x: Vec<char>| x@)
}

/// `conv_name` of a value.
fn conv_name_exec(v: &BicepValue) -> (r: Vec<char>)
    ensures
        r@ == conv_name(v@),
{
    match v {
        BicepValue::String(s) => chars_of(s.as_str()),
        BicepValue::Identifier(id) => {
            let mut out: Vec<char> = Vec::new();
            append_str(&mut out, "${");
            append_str(&mut out, id.as_str());
            append_str(&mut out, "}");
            out
        },
        _ => {
            let mut out: Vec<char> = Vec::new();
            super::write_value(&mut out, v);
            assert(out@ =~= view_text(v@));
            out
        },
    }
}

/// `conv_ref` of a value.
pub(crate) fn conv_ref_exec(v: &BicepValue) -> (r: Vec<char>)
    ensures
        r@ == conv_ref(v@),
{
    match v {
        BicepValue::String(s) => chars_of(s.as_str()),
        BicepValue::Identifier(id) => chars_of(id.as_str()),
        _ => {
            let mut out: Vec<char> = Vec::new();
            super::write_value(&mut out, v);
            assert(out@ =~= view_text(v@));
            out
        },
    }
}

/// `deps_update` of a `dependsOn` value.
pub(crate) fn deps_update_exec(cur: Option<Vec<Vec<char>>>, v: &BicepValue) -> (r: Option<Vec<Vec<char>>>)
    ensures
        opt_list(r) == deps_update(opt_list(cur), v@),
{
    proof {
        lemma_value_view_parts(*v);
    }
    match v {
        BicepValue::Array(ds) => {
            if ds.len() == 0 {
                return cur;
            }
            let ghost dv = super::values_view(ds@);
            let mut out: Vec<Vec<char>> = Vec::new();
            let mut i: usize = 0;
            while i < ds.len()
                invariant
                    i <= ds@.len(),
                    dv == super::values_view(ds@),
                    chars_list(out@) == dv.subrange(0, i as int).map_values(
                        |d: ValueView| conv_ref(d),
                    ),
                decreases ds@.len() - i,
            {
                let c = conv_ref_exec(&ds[i]);
                let ghost before = out@;
                out.push(c);
                i = i + 1;
                assert(chars_list(before).len() == i - 1);
                assert forall|j: int| 0 <= j < i implies #[trigger] chars_list(out@)[j]
                    == dv.subrange(0, i as int).map_values(|d: ValueView| conv_ref(d))[j] by {
                    if j < i - 1 {
                        assert(out@[j] == before[j]);
                        assert(chars_list(before)[j] == dv.subrange(0, i - 1).map_values(
                            |d: ValueView| conv_ref(d),
                        )[j]);
                    } else {
                        assert(out@[j] == c);
                        assert(dv[j] == value_view(ds@[j]));
                    }
                }
                assert(chars_list(out@) =~= dv.subrange(0, i as int).map_values(
                    |d: ValueView| conv_ref(d),
                ));
            }
            assert(dv.subrange(0, ds@.len() as int) =~= dv);
            Some(out)
        },
        _ => {
            let c = conv_ref_exec(v);
            let out: Vec<Vec<char>> = vec![c];
            assert(chars_list(out@) =~= seq![conv_ref(v@)]);
            Some(out)
        },
    }
}

pub open spec fn opt_list(o: Option<Vec<Vec<char>>>) -> Option<Seq<Seq<char>>> {
    match o {
        Some(v) => Some(chars_list(v@)),
        None => None,
    }
}

/// `type_and_api` of a type string.
fn type_and_api_exec(text: &[char]) -> (r: (Vec<char>, Option<Vec<char>>))
    ensures
        (r.0@, opt_chars(r.1)) == type_and_api(text@),
{
    let t = trim_char(text, '\'');
    match find_char(t.as_slice(), '@') {
        Some(_) => {
            let parts = split_char(t.as_slice(), '@');
            let ghost pv = parts@.map_values(|x: Vec<char>| x@);
            assert(pv.len() == parts@.len());
            proof {
                crate::text::lemma_split_nonempty(t@, '@');
            }
            let ty = slice_chars(parts[0].as_slice(), 0, parts[0].len());
            assert(ty@ =~= parts@[0]@);
            if parts.len() > 1 {
                let api = slice_chars(parts[1].as_slice(), 0, parts[1].len());
                assert(api@ =~= parts@[1]@);
                (ty, Some(api))
            } else {
                (ty, None)
            }
        },
        None => (t, None),
    }
}

/// `push_item` on executable lists.
fn push_item_exec(items: &mut Vec<Vec<char>>, cur: &[char])
    ensures
        chars_list(final(items)@) == push_item(chars_list(old(items)@), cur@),
{
    let t = trim(cur);
    if t.len() > 0 {
        let ghost before = items@;
        items.push(t);
        assert(chars_list(items@) =~= chars_list(before).push(spec_trim(cur@)));
    }
}

/// The items of `bscan`.
fn bracket_items(t: &[char]) -> (r: Vec<Vec<char>>)
    ensures
        chars_list(r@) == bscan(t@, 0, false, false, Seq::empty(), Seq::empty()),
{
    let mut items: Vec<Vec<char>> = Vec::new();
    let mut cur: Vec<char> = Vec::new();
    let mut started = false;
    let mut inq = false;
    let mut i: usize = 0;
    assert(chars_list(items@) =~= Seq::<Seq<char>>::empty());
    while i < t.len()
        invariant
            i <= t@.len(),
            bscan(t@, 0, false, false, Seq::empty(), Seq::empty()) == bscan(
                t@,
                i as int,
                started,
                inq,
                cur@,
                chars_list(items@),
            ),
        decreases t@.len() - i,
    {
        let c = t[i];
        if !started {
            started = c == '[';
        } else if c == ']' && !inq {
            push_item_exec(&mut items, cur.as_slice());
            return items;
        } else if c == '\'' || c == '"' {
            inq = !inq;
            cur.push(c);
        } else if c == ',' && !inq {
            push_item_exec(&mut items, cur.as_slice());
            cur = Vec::new();
        } else {
            cur.push(c);
        }
        i = i + 1;
    }
    items
}

/// The items of `qscan`.
fn quoted_items(t: &[char]) -> (r: Vec<Vec<char>>)
    ensures
        chars_list(r@) == qscan(t@, 0, false, Seq::empty(), Seq::empty()),
{
    let mut items: Vec<Vec<char>> = Vec::new();
    let mut cur: Vec<char> = Vec::new();
    let mut inq = false;
    let mut i: usize = 0;
    assert(chars_list(items@) =~= Seq::<Seq<char>>::empty());
    while i < t.len()
        invariant
            i <= t@.len(),
            qscan(t@, 0, false, Seq::empty(), Seq::empty()) == qscan(
                t@,
                i as int,
                inq,
                cur@,
                chars_list(items@),
            ),
        decreases t@.len() - i,
    {
        let c = t[i];
        if c == '\'' || c == '"' {
            inq = !inq;
            cur.push(c);
        } else if c == ',' && !inq {
            push_item_exec(&mut items, cur.as_slice());
            cur = Vec::new();
        } else {
            cur.push(c);
        }
        i = i + 1;
    }
    push_item_exec(&mut items, cur.as_slice());
    items
}

/// `bracketed` of a list.
fn bracketed_exec(items: &Vec<Vec<char>>) -> (r: Vec<char>)
    ensures
        r@ == bracketed(chars_list(items@)),
{
    let mut out: Vec<char> = Vec::new();
    append_str(&mut out, "[");
    let sep = chars_of(", ");
    let j = join(items, sep.as_slice());
    append_chars(&mut out, j.as_slice());
    append_str(&mut out, "]");
    out
}

/// What a resource declaration has read so far, in executable form.
pub(crate) struct ResState {
    pub(crate) identifier: Vec<char>,
    pub(crate) resource_type: Vec<char>,
    pub(crate) api_version: Option<Vec<char>>,
    pub(crate) existing: bool,
    pub(crate) name: Vec<char>,
    pub(crate) parent: Option<Vec<char>>,
    pub(crate) scope: Option<BicepValue>,
    pub(crate) depends_on: Option<Vec<Vec<char>>>,
    pub(crate) condition: Option<Vec<char>>,
    pub(crate) loop_iterator: Option<Vec<char>>,
    pub(crate) loop_array: Option<Vec<char>>,
}

impl View for ResState {
    type V = ResScan;

    closed spec fn view(&self) -> ResScan {
        ResScan {
            identifier: self.identifier@,
            resource_type: self.resource_type@,
            api_version: opt_chars(self.api_version),
            existing: self.existing,
            name: self.name@,
            parent: opt_chars(self.parent),
            scope: opt_value_view(self.scope),
            depends_on: opt_list(self.depends_on),
            condition: opt_chars(self.condition),
            loop_iterator: opt_chars(self.loop_iterator),
            loop_array: opt_chars(self.loop_array),
        }
    }
}

/// The view of a state, field by field.
pub(crate) proof fn lemma_res_state_view(st: ResState)
    ensures
        st@ == (ResScan {
            identifier: st.identifier@,
            resource_type: st.resource_type@,
            api_version: opt_chars(st.api_version),
            existing: st.existing,
            name: st.name@,
            parent: opt_chars(st.parent),
            scope: opt_value_view(st.scope),
            depends_on: opt_list(st.depends_on),
            condition: opt_chars(st.condition),
            loop_iterator: opt_chars(st.loop_iterator),
            loop_array: opt_chars(st.loop_array),
        }),
{
}

pub(crate) fn copy_chars(v: &Vec<char>) -> (r: Vec<char>)
    ensures
        r@ == v@,
{
    slice_chars(v.as_slice(), 0, v.len())
}

/// `head_fields` on the state.
fn head_step(st: &mut ResState, cs: &Vec<SyntaxNode>, i: usize)
    requires
        i < cs@.len(),
    ensures
        final(st)@ == head_fields(old(st)@, cs@, i as int),
{
    if cs.len() > 2 && i < cs.len() - 2 {
        if has_kind(&cs[i + 1], "identifier") {
            st.identifier = chars_of(cs[i + 1].text.as_str());
        }
        if has_kind(&cs[i + 2], "string") {
            let t = chars_of(cs[i + 2].text.as_str());
            let (ty, api) = type_and_api_exec(t.as_slice());
            st.resource_type = ty;
            if api.is_some() {
                st.api_version = api;
            }
        }
    }
}

/// `object_fields` on the state.
fn object_step(st: &mut ResState, props: &OrderedMap<BicepValue>)
    ensures
        final(st)@ == object_fields(old(st)@, entries_view(props@)),
{
    proof {
        super::decorators::lemma_get_key_view(props@, "name"@);
        super::decorators::lemma_get_key_view(props@, "parent"@);
        super::decorators::lemma_get_key_view(props@, "scope"@);
        super::decorators::lemma_get_key_view(props@, "dependsOn"@);
    }
    if let Some(v) = props.get("name") {
        st.name = conv_name_exec(v);
    }
    if let Some(v) = props.get("parent") {
        st.parent = Some(conv_ref_exec(v));
    }
    if let Some(v) = props.get("scope") {
        st.scope = Some(clone_value(v));
    }
    if let Some(v) = props.get("dependsOn") {
        let cur = st.depends_on.take();
        st.depends_on = deps_update_exec(cur, v);
    }
}

/// `array_fields` on the state.
pub(crate) fn array_step(st: &mut ResState, text: &[char], full: &[char])
    ensures
        final(st)@ == array_fields(old(st)@, text@, full@),
{
    proof {
        reveal_strlit("for");
        reveal_strlit("in");
        reveal_strlit(":");
        reveal_strlit("{");
    }
    if crate::text::contains_str(text, "[") && crate::text::contains_str(text, "]") {
        let items = bracket_items(text);
        if items.len() > 0 {
            st.loop_array = Some(bracketed_exec(&items));
        }
    }
    if crate::text::contains_str(full, "for") {
        match (crate::text::find_str(full, "for"), crate::text::find_str(full, "in")) {
            (Some(f), Some(n)) => {
                if f < n {
                    assert(full@[f + 1] == 'o' && full@[f + 2] == 'r') by {
                        assert(full@.subrange(f as int, f + 3)[1] == full@[f + 1]);
                        assert(full@.subrange(f as int, f + 3)[2] == full@[f + 2]);
                    }
                    assert(full@[n as int] == 'i' && full@[n + 1] == 'n') by {
                        assert(full@.subrange(n as int, n + 2)[0] == full@[n as int]);
                        assert(full@.subrange(n as int, n + 2)[1] == full@[n + 1]);
                    }
                    assert(f + 3 <= n);
                    let it = trim(slice_chars(full, f + 3, n).as_slice());
                    if it.len() > 0 {
                        st.loop_iterator = Some(it);
                    }
                    if st.loop_array.is_none() {
                        let rest = slice_chars(full, n, full.len());
                        match crate::text::find_str(rest.as_slice(), ":") {
                            Some(c) => {
                                assert(rest@[c as int] == ':') by {
                                    assert(rest@.subrange(c as int, c + 1)[0] == rest@[c as int]);
                                }
                                assert(c >= 2) by {
                                    if c < 2 {
                                        assert(rest@[c as int] == full@[n + c]);
                                    }
                                }
                                let arr = trim(slice_chars(full, n + 2, n + c).as_slice());
                                if arr.len() > 0 {
                                    st.loop_array = Some(arr);
                                }
                            },
                            None => {
                                match crate::text::find_str(rest.as_slice(), "{") {
                                    Some(b) => {
                                        assert(rest@[b as int] == '{') by {
                                            assert(rest@.subrange(b as int, b + 1)[0]
                                                == rest@[b as int]);
                                        }
                                        assert(b >= 2) by {
                                            if b < 2 {
                                                assert(rest@[b as int] == full@[n + b]);
                                            }
                                        }
                                        let arr = trim(slice_chars(full, n + 2, n + b).as_slice());
                                        if arr.len() > 0 {
                                            st.loop_array = Some(arr);
                                        }
                                    },
                                    None => {},
                                }
                            },
                        }
                    }
                }
            },
            _ => {},
        }
    }
}

/// `parent_text` of a text.
fn parent_text_exec(t: &[char]) -> (r: Vec<char>)
    ensures
        r@ == parent_text(t@),
{
    proof {
        reveal_strlit("::");
    }
    match crate::text::find_str(t, "::") {
        Some(k) => trim(slice_chars(t, 0, k).as_slice()),
        None => trim(t),
    }
}

/// `if_condition` of a text.
pub(crate) fn if_condition_exec(t: &[char]) -> (r: Option<Vec<char>>)
    ensures
        opt_chars(r) == if_condition(t@),
{
    proof {
        reveal_strlit("if ");
        reveal_strlit(") {");
    }
    match crate::text::find_str(t, "if ") {
        Some(s) => {
            let tl = t.len();
            assert(s + 3 <= tl);
            let rest = slice_chars(t, s + 3, tl);
            match crate::text::find_str(rest.as_slice(), ") {") {
                Some(e) => {
                    let c = trim(slice_chars(t, s + 3, s + 3 + e + 1).as_slice());
                    if c.len() > 0 {
                        Some(c)
                    } else {
                        None
                    }
                },
                None => None,
            }
        },
        None => None,
    }
}

/// `for_expression` of a text.
pub(crate) fn for_expression_exec(t: &[char]) -> (r: Option<Vec<char>>)
    ensures
        opt_chars(r) == for_expression(t@),
{
    proof {
        reveal_strlit("for ");
        reveal_strlit(":");
    }
    match crate::text::find_str(t, "for ") {
        Some(f) => {
            let rest = slice_chars(t, f, t.len());
            match crate::text::find_str(rest.as_slice(), ":") {
                Some(c) => Some(trim(slice_chars(t, f, f + c).as_slice())),
                None => None,
            }
        },
        None => None,
    }
}

/// `for_fields` on the state.
pub(crate) fn for_step(st: &mut ResState, t: &[char])
    requires
        for_text_ok(t@),
    ensures
        final(st)@ == for_fields(old(st)@, t@),
{
    proof {
        reveal_strlit(" in ");
    }
    match for_expression_exec(t) {
        Some(fe) => {
            match crate::text::find_str(fe.as_slice(), " in ") {
                Some(k) => {
                    let it = trim(slice_chars(fe.as_slice(), 4, k).as_slice());
                    let fl = fe.len();
                    assert(k + 4 <= fl);
                    let ar = trim(slice_chars(fe.as_slice(), k + 4, fl).as_slice());
                    if it.len() > 0 {
                        st.loop_iterator = Some(it);
                    }
                    if ar.len() > 0 {
                        st.loop_array = Some(ar);
                    }
                },
                None => {},
            }
        },
        None => {},
    }
}

/// `parent_from_full` of a text.
fn parent_from_full_exec(full: &[char]) -> (r: Option<Vec<char>>)
    ensures
        opt_chars(r) == parent_from_full(full@),
{
    proof {
        reveal_strlit("parent:");
    }
    match crate::text::find_str(full, "parent:") {
        Some(p) => {
            let fl = full.len();
            assert(p + 7 <= fl);
            let after = slice_chars(full, p + 7, fl);
            let mut start: usize = 0;
            let mut k: usize = 0;
            while k < after.len() && is_ws_exec(after[k])
                invariant
                    k <= after@.len(),
                    first_non_ws(after@, 0) == first_non_ws(after@, k as int),
                decreases after@.len() - k,
            {
                k = k + 1;
            }
            if k < after.len() {
                start = k;
            }
            let ghost st = match first_non_ws(after@, 0) {
                Some(x) => x,
                None => 0,
            };
            assert(start == st);
            let mut m: usize = start;
            while m < after.len() && !(after[m] == '\n' || after[m] == ',' || after[m] == '}')
                invariant
                    start <= m <= after@.len(),
                    first_stop(after@, start as int) == first_stop(after@, m as int),
                decreases after@.len() - m,
            {
                m = m + 1;
            }
            let end = m;
            if start < end {
                Some(trim(slice_chars(after.as_slice(), start, end).as_slice()))
            } else {
                None
            }
        },
        None => None,
    }
}

/// `loop_array_fallback` of a text.
fn loop_array_fallback_exec(full: &[char]) -> (r: Option<Vec<char>>)
    ensures
        opt_chars(r) == loop_array_fallback(full@),
{
    match crate::text::find_str(full, "[") {
        Some(a) => {
            let rest = slice_chars(full, a, full.len());
            match crate::text::find_str(rest.as_slice(), "]") {
                Some(b) => {
                    proof {
                        reveal_strlit("[");
                        reveal_strlit("]");
                    }
                    assert(b >= 1) by {
                        assert(full@.subrange(a as int, a + 1)[0] == full@[a as int]);
                        assert(rest@.subrange(b as int, b + 1)[0] == rest@[b as int]);
                        if b == 0 {
                            assert(rest@[0] == full@[a as int]);
                        }
                    }
                    let content = slice_chars(full, a + 1, a + b);
                    let items = quoted_items(content.as_slice());
                    if items.len() > 0 {
                        Some(bracketed_exec(&items))
                    } else {
                        None
                    }
                },
                None => None,
            }
        },
        None => None,
    }
}

/// `loop_statement` of an iterator and array.
pub(crate) fn loop_statement_exec(it: &Option<Vec<char>>, ar: &Option<Vec<char>>) -> (r: Option<String>)
    ensures
        str_view(r) == loop_statement(opt_chars(*it), opt_chars(*ar)),
{
    match (it, ar) {
        (Some(i), Some(a)) => {
            let mut out: Vec<char> = Vec::new();
            append_str(&mut out, "for ");
            append_chars(&mut out, i.as_slice());
            append_str(&mut out, " in ");
            append_chars(&mut out, a.as_slice());
            Some(string_of(out.as_slice()))
        },
        (Some(i), None) => {
            let mut out: Vec<char> = Vec::new();
            append_str(&mut out, "for ");
            append_chars(&mut out, i.as_slice());
            Some(string_of(out.as_slice()))
        },
        (None, Some(a)) => {
            let mut out: Vec<char> = Vec::new();
            append_str(&mut out, "for _ in ");
            append_chars(&mut out, a.as_slice());
            Some(string_of(out.as_slice()))
        },
        (None, None) => None,
    }
}

/// The direct `for` statements of a declaration have iterators, and so have
/// those of every resource declared below it.
pub open spec fn resource_declaration_ok(n: SyntaxNode) -> bool {
    direct_loops_ok(n) && loops_ok_from(n, 0)
}

proof fn lemma_resources_view_push(s: Seq<(String, BicepResource)>, e: (String, BicepResource))
    ensures
        resources_view(s.push(e)) == resources_view(s).push((e.0@, e.1@)),
{
    assert(resources_view(s.push(e)) =~= resources_view(s).push((e.0@, e.1@)));
}

/// `res_decorator_scan` of a resource's decorators.
fn res_decorators(ds: &Vec<BicepDecorator>) -> (r: (Option<String>, Option<i64>))
    ensures
        (str_view(r.0), r.1) == res_decorator_scan(decorators_view(ds@), 0, None, None),
{
    let ghost dv = decorators_view(ds@);
    let mut desc: Option<String> = None;
    let mut batch: Option<i64> = None;
    let mut i: usize = 0;
    while i < ds.len()
        invariant
            i <= ds@.len(),
            dv == decorators_view(ds@),
            res_decorator_scan(dv, 0, None, None) == res_decorator_scan(
                dv,
                i as int,
                str_view(desc),
                batch,
            ),
        decreases ds@.len() - i,
    {
        let d = &ds[i];
        assert(dv[i as int] == d@);
        let n = d.name.as_str();
        let is_desc = is_named(n, "description");
        let is_meta = is_named(n, "metadata");
        let is_batch = is_named(n, "batchSize");
        match &d.argument {
            BicepValue::String(t) => {
                if is_desc {
                    desc = Some(t.clone());
                }
            },
            BicepValue::Object(m) => {
                if is_meta {
                    proof {
                        lemma_value_view_parts(d.argument);
                        super::decorators::lemma_get_key_view(m@, "description"@);
                    }
                    match m.get("description") {
                        Some(BicepValue::String(t)) => {
                            desc = Some(t.clone());
                        },
                        _ => {},
                    }
                }
            },
            BicepValue::Int(b) => {
                if is_batch {
                    batch = Some(*b);
                }
            },
            _ => {},
        }
        i = i + 1;
    }
    (desc, batch)
}

pub(crate) fn empty_state() -> (r: ResState)
    ensures
        r@ == res_start(),
{
    ResState {
        identifier: Vec::new(),
        resource_type: Vec::new(),
        api_version: None,
        existing: false,
        name: Vec::new(),
        parent: None,
        scope: None,
        depends_on: None,
        condition: None,
        loop_iterator: None,
        loop_array: None,
    }
}

/// `res_scan` over the children of a declaration.
fn scan_children(node: &SyntaxNode, full: &[char]) -> (r: ResState)
    requires
        full@ == node.text@,
        resource_declaration_ok(*node),
    ensures
        r@ == res_scan(node.children@, 0, res_start(), node.text@),
{
    let mut st = empty_state();
    let cs = &node.children;
    let mut i: usize = 0;
    while i < cs.len()
        invariant
            i <= cs@.len(),
            *cs == node.children,
            full@ == node.text@,
            resource_declaration_ok(*node),
            res_scan(cs@, 0, res_start(), full@) == res_scan(cs@, i as int, st@, full@),
        decreases cs@.len() - i,
    {
        let c = &cs[i];
        let ghost before = st@;
        if has_kind(c, "resource") {
            head_step(&mut st, cs, i);
        } else if has_kind(c, "existing") {
            st.existing = true;
        } else if has_kind(c, "object") {
            match parse_value_node(c) {
                Ok(Some(BicepValue::Object(props))) => {
                    proof {
                        lemma_value_view_parts(BicepValue::Object(props));
                    }
                    object_step(&mut st, &props);
                },
                _ => {
                    proof {
                        if value_model(*c) matches Some(ValueView::Object(p)) {
                            assert(false);
                        }
                    }
                },
            }
        } else if has_kind(c, "array") {
            let t = chars_of(c.text.as_str());
            array_step(&mut st, t.as_slice(), full);
        } else if has_kind(c, "parent") {
            if i + 1 < cs.len() {
                let t = chars_of(cs[i + 1].text.as_str());
                st.parent = Some(parent_text_exec(t.as_slice()));
            }
        } else if has_kind(c, "if_statement") {
            let t = chars_of(c.text.as_str());
            match if_condition_exec(t.as_slice()) {
                Some(cond) => {
                    st.condition = Some(cond);
                },
                None => {},
            }
        } else if has_kind(c, "for_statement") {
            let t = chars_of(c.text.as_str());
            for_step(&mut st, t.as_slice());
        }
        assert(st@ == res_step(before, cs@, i as int, full@));
        i = i + 1;
    }
    st
}

proof fn lemma_direct_entry_keeps(es: Seq<(Seq<char>, ValueView)>, j: int, st: ResScan)
    ensures
        ({
            let r = direct_entry_scan(es, j, st);
            r == ResScan { name: r.name, scope: r.scope, ..st }
        }),
    decreases es.len() - j,
{
    if 0 <= j < es.len() {
        if es[j].0 == "name"@ && st.name.len() == 0 {
            lemma_direct_entry_keeps(es, j + 1, ResScan { name: conv_name(es[j].1), ..st });
        } else if es[j].0 == "scope"@ && st.scope is None {
            lemma_direct_entry_keeps(es, j + 1, ResScan { scope: Some(es[j].1), ..st });
        } else {
            lemma_direct_entry_keeps(es, j + 1, st);
        }
    }
}

/// The object children of a declaration set only its name and scope.
proof fn lemma_direct_keeps(cs: Seq<SyntaxNode>, i: int, st: ResScan)
    ensures
        ({
            let r = direct_scan(cs, i, st);
            r == ResScan { name: r.name, scope: r.scope, ..st }
        }),
    decreases cs.len() - i,
{
    if 0 <= i < cs.len() {
        if kind_is(cs[i], "object"@) && value_model(cs[i]) matches Some(ValueView::Object(p)) {
            let es = value_model(cs[i])->Some_0->Object_0;
            lemma_direct_entry_keeps(es, 0, st);
            lemma_direct_keeps(cs, i + 1, direct_entry_scan(es, 0, st));
        } else {
            lemma_direct_keeps(cs, i + 1, st);
        }
    }
}

/// `direct_scan` over the object children of a declaration.
fn direct_step(st: &mut ResState, node: &SyntaxNode)
    ensures
        final(st)@ == direct_scan(node.children@, 0, old(st)@),
{
    let cs = &node.children;
    let mut i: usize = 0;
    while i < cs.len()
        invariant
            i <= cs@.len(),
            *cs == node.children,
            direct_scan(cs@, 0, old(st)@) == direct_scan(cs@, i as int, st@),
        decreases cs@.len() - i,
    {
        let c = &cs[i];
        if has_kind(c, "object") {
            match parse_value_node(c) {
                Ok(Some(BicepValue::Object(props))) => {
                    proof {
                        lemma_value_view_parts(BicepValue::Object(props));
                    }
                    let ghost ev = entries_view(props@);
                    let ghost s0 = st@;
                    let mut j: usize = 0;
                    while j < props.entries.len()
                        invariant
                            j <= props@.len(),
                            ev == entries_view(props@),
                            direct_entry_scan(ev, 0, s0) == direct_entry_scan(ev, j as int, st@),
                        decreases props@.len() - j,
                    {
                        let k = props.entries[j].0.as_str();
                        let v = &props.entries[j].1;
                        if crate::text::str_eq(k, "name") && st.name.len() == 0 {
                            st.name = conv_name_exec(v);
                        } else if crate::text::str_eq(k, "scope") && st.scope.is_none() {
                            st.scope = Some(clone_value(v));
                        }
                        j = j + 1;
                    }
                },
                _ => {
                    proof {
                        if value_model(*c) matches Some(ValueView::Object(p)) {
                            assert(false);
                        }
                    }
                },
            }
        }
        i = i + 1;
    }
}

pub open spec fn maps_view(v: Seq<OrderedMap<BicepValue>>) -> Seq<Seq<(Seq<char>, ValueView)>> {
    Seq::new(v.len(), |i: int| entries_view(v[i]@))
}

/// Appends the object values of a node, in pre-order.
fn find_object_nodes_recursive(n: &SyntaxNode, out: &mut Vec<OrderedMap<BicepValue>>)
    ensures
        maps_view(final(out)@) == maps_view(old(out)@) + objects_in(*n),
    decreases n, 1int, 0int,
{
    let ghost base = out@;
    if has_kind(n, "object") {
        match parse_value_node(n) {
            Ok(Some(BicepValue::Object(props))) => {
                proof {
                    lemma_value_view_parts(BicepValue::Object(props));
                }
                out.push(props);
            },
            _ => {
                proof {
                    if value_model(*n) matches Some(ValueView::Object(p)) {
                        assert(false);
                    }
                }
            },
        }
    }
    let ghost own: Seq<Seq<(Seq<char>, ValueView)>> = if kind_is(*n, "object"@) && value_model(
        *n,
    ) matches Some(ValueView::Object(p)) {
        seq![value_model(*n)->Some_0->Object_0]
    } else {
        Seq::empty()
    };
    assert(maps_view(out@) =~= maps_view(base) + own);
    let mut i: usize = 0;
    while i < n.children.len()
        invariant
            i <= n.children@.len(),
            maps_view(out@) + objects_from(*n, i as int) == maps_view(base) + own + objects_from(
                *n,
                0,
            ),
        decreases n.children@.len() - i,
    {
        proof {
            assert(decreases_to!(*n => n.children@[i as int]));
        }
        let ghost before = out@;
        find_object_nodes_recursive(&n.children[i], out);
        assert(maps_view(out@) + objects_from(*n, i + 1) =~= maps_view(before) + objects_from(
            *n,
            i as int,
        ));
        i = i + 1;
    }
    assert(maps_view(out@) =~= maps_view(base) + objects_in(*n));
}

/// `nested_name` over executable maps.
fn nested_name_exec(objs: &Vec<OrderedMap<BicepValue>>, name: Vec<char>) -> (r: Vec<char>)
    ensures
        r@ == nested_name(maps_view(objs@), 0, name@),
{
    let ghost ov = maps_view(objs@);
    let mut nm = name;
    let mut i: usize = 0;
    while i < objs.len()
        invariant
            i <= objs@.len(),
            ov == maps_view(objs@),
            nested_name(ov, 0, name@) == nested_name(ov, i as int, nm@),
        decreases objs@.len() - i,
    {
        let props = &objs[i];
        let ghost ev = entries_view(props@);
        assert(ov[i as int] == ev);
        let ghost n0 = nm@;
        let mut j: usize = 0;
        while j < props.entries.len()
            invariant
                j <= props@.len(),
                ev == entries_view(props@),
                name_entry_scan(ev, 0, n0) == name_entry_scan(ev, j as int, nm@),
            decreases props@.len() - j,
        {
            if crate::text::str_eq(props.entries[j].0.as_str(), "name") && nm.len() == 0 {
                nm = conv_name_exec(&props.entries[j].1);
            }
            j = j + 1;
        }
        if nm.len() > 0 {
            return nm;
        }
        i = i + 1;
    }
    nm
}

/// The resource as a child of `parent`: identifier prefixed, type appended,
/// API version inherited where it has none.
fn adopt_child(
    pid: &str,
    ptype: &str,
    papi: &str,
    entry: (String, BicepResource),
) -> (r: (String, BicepResource))
    ensures
        (r.0@, r.1@) == as_child(
            pid@,
            ResourceView { resource_type: ptype@, api_version: papi@, ..entry.1@ },
            (entry.0@, entry.1@),
        ),
{
    let (cid, mut res) = entry;
    let mut id: Vec<char> = Vec::new();
    append_str(&mut id, pid);
    append_str(&mut id, "::");
    append_str(&mut id, cid.as_str());
    let mut ty: Vec<char> = Vec::new();
    append_str(&mut ty, ptype);
    append_str(&mut ty, "/");
    append_str(&mut ty, res.resource_type.as_str());
    res.resource_type = string_of(ty.as_slice());
    if res.api_version.as_str().unicode_len() == 0 {
        res.api_version = papi.to_string();
    }
    (string_of(id.as_slice()), res)
}

/// Appends the resources declared inside the children of `n`.
fn collect_child_resources(
    n: &SyntaxNode,
    pid: &str,
    ptype: &str,
    papi: &str,
    Ghost(parent): Ghost<ResourceView>,
    out: &mut Vec<(String, BicepResource)>,
)
    requires
        parent.resource_type == ptype@,
        parent.api_version == papi@,
        loops_ok_from(*n, 0),
    ensures
        resources_view(final(out)@) == resources_view(old(out)@) + children_from(
            *n,
            0,
            pid@,
            parent,
        ),
    decreases n, 1int, 0int,
{
    let ghost base = out@;
    let mut i: usize = 0;
    assert(resources_view(out@) + children_from(*n, 0, pid@, parent) =~= resources_view(base)
        + children_from(*n, 0, pid@, parent));
    while i < n.children.len()
        invariant
            i <= n.children@.len(),
            parent.resource_type == ptype@,
            parent.api_version == papi@,
            loops_ok_from(*n, i as int),
            resources_view(out@) + children_from(*n, i as int, pid@, parent) == resources_view(
                base,
            ) + children_from(*n, 0, pid@, parent),
        decreases n.children@.len() - i,
    {
        let c = &n.children[i];
        assert(resource_loops_ok(*c));
        proof {
            assert(decreases_to!(*n => n.children@[i as int]));
        }
        let ghost before = out@;
        if has_kind(c, "resource_declaration") {
            let mut sub = match parse_resource_declaration(c, Vec::new()) {
                Ok(v) => v,
                Err(_) => Vec::new(),
            };
            let ghost subm = resource_model(*c, decorators_view(Seq::<BicepDecorator>::empty()));
            assert(decorators_view(Seq::<BicepDecorator>::empty()) =~= Seq::<DecoratorView>::empty());
            let ghost here = Seq::new(subm.len(), |j: int| as_child(pid@, parent, subm[j]));
            let ghost total = subm.len();
            let tl = sub.len();
            assert(total == tl);
            let mut k: usize = 0;
            while sub.len() > 0
                invariant
                    k + sub@.len() == total,
                    total == subm.len(),
                    total <= usize::MAX,
                    parent.resource_type == ptype@,
                    parent.api_version == papi@,
                    resources_view(sub@) == subm.subrange(k as int, total as int),
                    here == Seq::new(subm.len(), |j: int| as_child(pid@, parent, subm[j])),
                    resources_view(out@) == resources_view(before) + here.subrange(0, k as int),
                decreases sub@.len(),
            {
                let ghost old_sub = sub@;
                let e = sub.remove(0);
                let ghost ev = (e.0@, e.1@);
                assert(ev == subm[k as int]) by {
                    assert(resources_view(old_sub)[0] == ev);
                    assert(subm.subrange(k as int, total as int)[0] == subm[k as int]);
                }
                assert forall|j: int| 0 <= j < sub@.len() implies #[trigger] resources_view(sub@)[j]
                    == subm[k + 1 + j] by {
                    assert(sub@[j] == old_sub[j + 1]);
                    assert(resources_view(old_sub)[j + 1] == subm.subrange(
                        k as int,
                        total as int,
                    )[j + 1]);
                }
                let ce = adopt_child(pid, ptype, papi, e);
                let ghost prev = out@;
                proof {
                    lemma_resources_view_push(prev, ce);
                }
                out.push(ce);
                k = k + 1;
                assert(here[k - 1] == as_child(pid@, parent, subm[k - 1]));
                assert(as_child(pid@, parent, subm[k - 1]) == (ce.0@, ce.1@));
                assert(resources_view(out@) =~= resources_view(before) + here.subrange(0, k as int));
                assert(resources_view(sub@) =~= subm.subrange(k as int, total as int));
            }
            assert(here.subrange(0, k as int) =~= here);
        } else {
            collect_child_resources(c, pid, ptype, papi, Ghost(parent), out);
        }
        i = i + 1;
    }
}

/// Parses a resource declaration: the resource itself, keyed by its
/// identifier, followed by the resources declared inside it, keyed
/// `parent::child`.
pub fn parse_resource_declaration(node: &SyntaxNode, decorators: Vec<BicepDecorator>) -> (r: Result<
    Vec<(String, BicepResource)>,
    BicepParserError,
>)
    requires
        resource_declaration_ok(*node),
    ensures
        r matches Ok(v) && resources_view(v@) == resource_model(*node, decorators_view(decorators@)),
    decreases node, 2int, 0int,
{
    let (description, batch_size) = res_decorators(&decorators);
    let full = chars_of(node.text.as_str());
    let mut st = scan_children(node, full.as_slice());
    let ghost s1 = st@;
    match parent_from_full_exec(full.as_slice()) {
        Some(p) => {
            st.parent = Some(p);
        },
        None => {},
    }
    if st.loop_iterator.is_some() && st.loop_array.is_none() {
        match loop_array_fallback_exec(full.as_slice()) {
            Some(a) => {
                st.loop_array = Some(a);
            },
            None => {},
        }
    }
    let ghost s3 = st@;
    direct_step(&mut st, node);
    proof {
        lemma_direct_keeps(node.children@, 0, s3);
    }
    if st.name.len() == 0 {
        let mut objs: Vec<OrderedMap<BicepValue>> = Vec::new();
        find_object_nodes_recursive(node, &mut objs);
        assert(maps_view(objs@) =~= objects_in(*node));
        let nm = copy_chars(&st.name);
        st.name = nested_name_exec(&objs, nm);
    }
    let loop_stmt = loop_statement_exec(&st.loop_iterator, &st.loop_array);
    let identifier = string_of(st.identifier.as_slice());
    let rtype = string_of(st.resource_type.as_slice());
    let api = match &st.api_version {
        Some(a) => string_of(a.as_slice()),
        None => String::new(),
    };
    let ghost main = main_resource(*node, decorators_view(decorators@));
    assert(identifier@ == res_identifier(*node));
    assert(rtype@ == main.resource_type);
    assert(api@ == main.api_version);
    let mut children: Vec<(String, BicepResource)> = Vec::new();
    collect_child_resources(
        node,
        identifier.as_str(),
        rtype.as_str(),
        api.as_str(),
        Ghost(main),
        &mut children,
    );
    let parent = match &st.parent {
        Some(p) => Some(string_of(p.as_slice())),
        None => None,
    };
    let condition = match &st.condition {
        Some(c) => Some(string_of(c.as_slice())),
        None => None,
    };
    let depends_on = match &st.depends_on {
        Some(ds) => Some(strings_of(ds)),
        None => None,
    };
    let main_res = BicepResource {
        description,
        resource_type: rtype,
        api_version: api,
        existing: st.existing,
        scope: st.scope.take(),
        name: string_of(st.name.as_slice()),
        parent,
        depends_on,
        condition,
        loop_statement: loop_stmt,
        batch_size,
    };
    assert(main_res@ == main);
    let mut all: Vec<(String, BicepResource)> = Vec::new();
    all.push((identifier, main_res));
    let ghost first = resources_view(all@);
    let mut k: usize = 0;
    let ghost cv = resources_view(children@);
    let cl = children.len();
    assert(cv.len() == cl);
    while children.len() > 0
        invariant
            k + children@.len() == cv.len(),
            cv.len() <= usize::MAX,
            resources_view(children@) == cv.subrange(k as int, cv.len() as int),
            resources_view(all@) == first + cv.subrange(0, k as int),
        decreases children@.len(),
    {
        let ghost old_ch = children@;
        let e = children.remove(0);
        assert((e.0@, e.1@) == cv[k as int]) by {
            assert(resources_view(old_ch)[0] == (e.0@, e.1@));
            assert(cv.subrange(k as int, cv.len() as int)[0] == cv[k as int]);
        }
        assert forall|j: int| 0 <= j < children@.len() implies #[trigger] resources_view(
            children@,
        )[j] == cv[k + 1 + j] by {
            assert(children@[j] == old_ch[j + 1]);
            assert(resources_view(old_ch)[j + 1] == cv.subrange(k as int, cv.len() as int)[j
                + 1]);
        }
        let ghost prev = all@;
        proof {
            lemma_resources_view_push(prev, e);
        }
        all.push(e);
        k = k + 1;
        assert(resources_view(all@) =~= first + cv.subrange(0, k as int));
        assert(resources_view(children@) =~= cv.subrange(k as int, cv.len() as int));
    }
    assert(cv.subrange(0, k as int) =~= cv);
    assert(first =~= seq![(res_identifier(*node), main)]);
    Ok(all)
}

/// Strings of the character lists.
pub(crate) fn strings_of(v: &Vec<Vec<char>>) -> (r: Vec<String>)
    ensures
        strings_view(r@) == chars_list(v@),
{
    let mut out: Vec<String> = Vec::new();
    let mut i: usize = 0;
    while i < v.len()
        invariant
            i <= v@.len(),
            strings_view(out@) == chars_list(v@).subrange(0, i as int),
        decreases v@.len() - i,
    {
        let ghost before = out@;
        let x = string_of(v[i].as_slice());
        out.push(x);
        i = i + 1;
        assert(strings_view(before).len() == i - 1);
        assert forall|j: int| 0 <= j < i implies #[trigger] strings_view(out@)[j] == chars_list(
            v@,
        ).subrange(0, i as int)[j] by {
            if j < i - 1 {
                assert(out@[j] == before[j]);
                assert(strings_view(before)[j] == chars_list(v@).subrange(0, i - 1)[j]);
            } else {
                assert(out@[j] == x);
            }
        }
        assert(strings_view(out@) =~= chars_list(v@).subrange(0, i as int));
    }
    assert(chars_list(v@).subrange(0, v@.len() as int) =~= chars_list(v@));
    out
}

proof fn lemma_children_have_api_version(n: SyntaxNode, i: int, pid: Seq<char>, parent: ResourceView)
    requires
        parent.api_version.len() > 0,
    ensures
        forall|k: int| 0 <= k < children_from(n, i, pid, parent).len()
            ==> (#[trigger] children_from(n, i, pid, parent)[k]).1.api_version.len() > 0,
    decreases n, 1int, n.children@.len() - i,
{
    if 0 <= i < n.children@.len() {
        let c = n.children@[i];
        lemma_children_have_api_version(n, i + 1, pid, parent);
        if !kind_is(c, "resource_declaration"@) {
            assert(decreases_to!(n => c));
            lemma_children_have_api_version(c, 0, pid, parent);
        }
        let here = if kind_is(c, "resource_declaration"@) {
            let sub = resource_model(c, Seq::empty());
            Seq::new(sub.len(), |j: int| as_child(pid, parent, sub[j]))
        } else {
            children_from(c, 0, pid, parent)
        };
        let rest = children_from(n, i + 1, pid, parent);
        assert(children_from(n, i, pid, parent) == here + rest);
        assert forall|k: int| 0 <= k < here.len() + rest.len() implies (#[trigger] (here
            + rest)[k]).1.api_version.len() > 0 by {
            if k < here.len() {
                assert((here + rest)[k] == here[k]);
            } else {
                assert((here + rest)[k] == rest[k - here.len()]);
            }
        }
    }
}

/// Every resource declared inside a resource whose API version is known has
/// an API version: its own, or else the one of the resource it sits in.
pub proof fn law_nested_resources_have_an_api_version(n: SyntaxNode, ds: Seq<DecoratorView>)
    requires
        resource_model(n, ds)[0].1.api_version.len() > 0,
    ensures
        forall|k: int| 0 <= k < resource_model(n, ds).len()
            ==> (#[trigger] resource_model(n, ds)[k]).1.api_version.len() > 0,
{
    let id = res_identifier(n);
    let main = main_resource(n, ds);
    lemma_children_have_api_version(n, 0, id, main);
    let rest = children_from(n, 0, id, main);
    assert forall|k: int| 0 <= k < resource_model(n, ds).len() implies (#[trigger] resource_model(
        n,
        ds,
    )[k]).1.api_version.len() > 0 by {
        if k > 0 {
            assert(resource_model(n, ds)[k] == rest[k - 1]);
        }
    }
}

/// A resource declared directly inside another is listed first among the
/// resources found from its position: under the parent's identifier and
/// its own joined by `::`, with the parent's type and its own joined by
/// `/`, and with its own API version where its type string carries one and
/// the parent's otherwise.
pub proof fn law_child_resource_entry(n: SyntaxNode, i: int, pid: Seq<char>, parent: ResourceView)
    requires
        0 <= i < n.children@.len(),
        kind_is(n.children@[i], "resource_declaration"@),
    ensures
        ({
            let c = n.children@[i];
            let own = main_resource(c, Seq::empty());
            let x = children_from(n, i, pid, parent)[0];
            &&& children_from(n, i, pid, parent).len() > 0
            &&& x.0 == pid + "::"@ + res_identifier(c)
            &&& x.1.resource_type == parent.resource_type + "/"@ + own.resource_type
            &&& own.api_version.len() == 0 ==> x.1.api_version == parent.api_version
            &&& own.api_version.len() > 0 ==> x.1.api_version == own.api_version
            &&& x.1.name == own.name
        }),
{
    let c = n.children@[i];
    let sub = resource_model(c, Seq::empty());
    let here = Seq::new(sub.len(), |j: int| as_child(pid, parent, sub[j]));
    assert(children_from(n, i, pid, parent) == here + children_from(n, i + 1, pid, parent));
    assert((here + children_from(n, i + 1, pid, parent))[0] == here[0]);
}

} // verus!