//! Values written in Bicep source: literals, arrays, objects and expressions.
use vstd::prelude::*;

use super::syntax::{kind_is, SyntaxNode};
use super::{
    entries_view, lemma_value_view_parts, value_view, values_view, BicepParserError, BicepValue,
    ValueView,
};
use crate::ordered_map::{
    index_of, insert_entry, key_pos, lemma_key_pos, put, same_keys, OrderedMap,
};
use crate::text::{chars_of, parse_i64, spec_parse_i64, str_eq};

verus! {

// ---------------------------------------------------------------
// Models
// ---------------------------------------------------------------

/// The position of the first node of `cs` at or after `i` whose kind is `k`.
pub open spec fn first_kind_from(cs: Seq<SyntaxNode>, k: Seq<char>, i: int) -> Option<int>
    decreases cs.len() - i,
{
    if i < 0 || i >= cs.len() {
        None
    } else if cs[i].kind@ == k {
        Some(i)
    } else {
        first_kind_from(cs, k, i + 1)
    }
}

/// The value that a node holds; `None` where it cannot be read (a string
/// without content, a malformed integer or boolean, or such a value inside).
pub open spec fn value_model(n: SyntaxNode) -> Option<ValueView>
    decreases n, 2int, 0int,
{
    if kind_is(n, "string"@) {
        match first_kind_from(n.children@, "string_content"@, 0) {
            Some(i) => if 0 <= i < n.children@.len() {
                Some(ValueView::Str(n.children@[i].text@))
            } else {
                None
            },
            None => None,
        }
    } else if kind_is(n, "integer"@) {
        match spec_parse_i64(n.text@) {
            Some(k) => Some(ValueView::Int(k)),
            None => None,
        }
    } else if kind_is(n, "boolean"@) {
        if n.text@ == "true"@ {
            Some(ValueView::Bool(true))
        } else if n.text@ == "false"@ {
            Some(ValueView::Bool(false))
        } else {
            None
        }
    } else if kind_is(n, "array"@) {
        match first_kind_from(n.children@, "array_item"@, 0) {
            Some(i) => if 0 <= i < n.children@.len() {
                match items_scan(n.children@[i], 0, Seq::empty()) {
                    Some(s) => Some(ValueView::Array(s)),
                    None => None,
                }
            } else {
                None
            },
            None => Some(ValueView::Array(Seq::empty())),
        }
    } else if kind_is(n, "object"@) {
        match object_scan(n, 0, Seq::empty()) {
            Some(m) => Some(ValueView::Object(m)),
            None => None,
        }
    } else if kind_is(n, "parenthesized_expression"@) {
        paren_scan(n, 0)
    } else if kind_is(n, "null"@) {
        Some(ValueView::Str("null"@))
    } else {
        Some(ValueView::Str(n.text@))
    }
}

/// Whether reading the node's value fails quietly, giving no value rather
/// than an error: an integer whose text is not an `i64`, or a parenthesized
/// expression whose inner value fails so.
pub open spec fn value_dropped(n: SyntaxNode) -> bool
    decreases n, 2int, 0int,
{
    if kind_is(n, "integer"@) {
        spec_parse_i64(n.text@) is None
    } else if kind_is(n, "parenthesized_expression"@) {
        paren_dropped(n, 0)
    } else {
        false
    }
}

/// Whether the first child from `i` on other than a parenthesis has a value
/// that fails quietly.
pub open spec fn paren_dropped(n: SyntaxNode, i: int) -> bool
    decreases n, 1int, n.children@.len() - i,
{
    if i < 0 || i >= n.children@.len() {
        false
    } else if !kind_is(n.children@[i], "("@) && !kind_is(n.children@[i], ")"@) {
        value_dropped(n.children@[i])
    } else {
        paren_dropped(n, i + 1)
    }
}

/// A node of a kind other than `integer` and `parenthesized_expression`
/// never fails quietly.
proof fn lemma_not_dropped(n: SyntaxNode, k: &str)
    requires
        n.kind@ == k@,
        k@.len() > 0,
        k@[0] != 'i',
        k@[0] != 'p',
    ensures
        !value_dropped(n),
{
    reveal_strlit("integer");
    reveal_strlit("parenthesized_expression");
    assert("integer"@[0] == 'i');
    assert("parenthesized_expression"@[0] == 'p');
}

/// The items of an `array_item` node from child `i` on, after `acc`; an item
/// whose value fails quietly is left out.
pub open spec fn items_scan(c: SyntaxNode, i: int, acc: Seq<ValueView>) -> Option<Seq<ValueView>>
    decreases c, 1int, c.children@.len() - i,
{
    if i < 0 || i >= c.children@.len() {
        Some(acc)
    } else if kind_is(c.children@[i], ","@) {
        items_scan(c, i + 1, acc)
    } else {
        match value_model(c.children@[i]) {
            Some(v) => items_scan(c, i + 1, acc.push(v)),
            None => if value_dropped(c.children@[i]) {
                items_scan(c, i + 1, acc)
            } else {
                None
            },
        }
    }
}

/// The entries of an object node from child `i` on, stored into `acc`.
pub open spec fn object_scan(n: SyntaxNode, i: int, acc: Seq<(Seq<char>, ValueView)>) -> Option<
    Seq<(Seq<char>, ValueView)>,
>
    decreases n, 1int, n.children@.len() - i,
{
    if i < 0 || i >= n.children@.len() {
        Some(acc)
    } else if kind_is(n.children@[i], "object_property"@) {
        match prop_scan(n.children@[i], 0, None, None) {
            Some((Some(k), Some(v))) => object_scan(n, i + 1, put(acc, k, v)),
            Some(_) => object_scan(n, i + 1, acc),
            None => None,
        }
    } else {
        object_scan(n, i + 1, acc)
    }
}

/// The key and value of an `object_property` node, read from child `i` on.
pub open spec fn prop_scan(
    p: SyntaxNode,
    i: int,
    key: Option<Seq<char>>,
    val: Option<ValueView>,
) -> Option<(Option<Seq<char>>, Option<ValueView>)>
    decreases p, 1int, p.children@.len() - i,
{
    if i < 0 || i >= p.children@.len() {
        Some((key, val))
    } else {
        let c = p.children@[i];
        if kind_is(c, ":"@) || (val is Some && (key is Some || !(kind_is(c, "identifier"@)
            || kind_is(c, "string"@)))) {
            prop_scan(p, i + 1, key, val)
        } else if (kind_is(c, "identifier"@) || kind_is(c, "string"@)) && key is None {
            prop_scan(p, i + 1, Some(c.text@), val)
        } else {
            match value_model(c) {
                Some(v) => prop_scan(p, i + 1, key, Some(v)),
                None => if value_dropped(c) {
                    prop_scan(p, i + 1, key, val)
                } else {
                    None
                },
            }
        }
    }
}

/// The value of a parenthesized expression: that of its first child other
/// than a parenthesis, else its text.
pub open spec fn paren_scan(n: SyntaxNode, i: int) -> Option<ValueView>
    decreases n, 1int, n.children@.len() - i,
{
    if i < 0 || i >= n.children@.len() {
        Some(ValueView::Str(n.text@))
    } else if !kind_is(n.children@[i], "("@) && !kind_is(n.children@[i], ")"@) {
        value_model(n.children@[i])
    } else {
        paren_scan(n, i + 1)
    }
}

pub proof fn lemma_first_kind_from(cs: Seq<SyntaxNode>, k: Seq<char>, i: int)
    requires
        0 <= i,
    ensures
        first_kind_from(cs, k, i) matches Some(j) ==> i <= j < cs.len() && cs[j].kind@ == k && (
        forall|m: int| i <= m < j ==> cs[m].kind@ != k),
        first_kind_from(cs, k, i) is None ==> forall|m: int| i <= m < cs.len() ==> cs[m].kind@
            != k,
    decreases cs.len() - i,
{
    if i < cs.len() {
        lemma_first_kind_from(cs, k, i + 1);
    }
}

/// Inserting into a map of values, seen through the view.
pub proof fn lemma_entries_view_insert(s: Seq<(String, BicepValue)>, k: String, v: BicepValue)
    ensures
        entries_view(insert_entry(s, k, v)) == put(entries_view(s), k@, value_view(v)),
{
    let w = entries_view(s);
    crate::ordered_map::lemma_index_of(s, k@);
    assert(same_keys(s, w));
    lemma_key_pos(s, w, k@);
    match index_of(s, k@) {
        Some(i) => {
            let t = insert_entry(s, k, v);
            assert(t == s.update(i, (k, v)));
            assert forall|j: int| 0 <= j < t.len() implies entries_view(t)[j] == put(
                w,
                k@,
                value_view(v),
            )[j] by {
                if j == i {
                } else {
                    assert(t[j] == s[j]);
                }
            }
            assert(entries_view(insert_entry(s, k, v)) =~= put(w, k@, value_view(v)));
        },
        None => {
            assert(entries_view(insert_entry(s, k, v)) =~= put(w, k@, value_view(v)));
        },
    }
}

// ---------------------------------------------------------------
// Parsing
// ---------------------------------------------------------------

/// Whether `n`'s kind is `k`.
pub fn has_kind(n: &SyntaxNode, k: &str) -> (r: bool)
    ensures
        r == (n.kind@ == k@),
{
    str_eq(n.kind.as_str(), k)
}

/// The position of the first child of `n` whose kind is `k`.
pub fn first_child_of_kind(n: &SyntaxNode, k: &str) -> (r: Option<usize>)
    ensures
        r matches Some(i) ==> first_kind_from(n.children@, k@, 0) == Some(i as int),
        r is None ==> first_kind_from(n.children@, k@, 0) is None,
{
    let mut i: usize = 0;
    while i < n.children.len()
        invariant
            i <= n.children@.len(),
            first_kind_from(n.children@, k@, 0) == first_kind_from(n.children@, k@, i as int),
        decreases n.children@.len() - i,
    {
        if has_kind(&n.children[i], k) {
            return Some(i);
        }
        i = i + 1;
    }
    None
}

/// The parse error with message `msg`.
fn parse_error(msg: &str) -> (r: BicepParserError)
    ensures
        r matches BicepParserError::ParseError(m) && m@ == msg@,
{
    BicepParserError::ParseError(String::from_str(msg))
}

/// Parses the value a node holds (`parse_value_node`).
pub fn parse_value_node(node: &SyntaxNode) -> (r: Result<Option<BicepValue>, BicepParserError>)
    ensures
        match value_model(*node) {
            Some(v) => r matches Ok(Some(x)) && x@ == v,
            None => if value_dropped(*node) {
                r matches Ok(None)
            } else {
                r is Err
            },
        },
    decreases node, 2int, 0int,
{
    proof {
        reveal_strlit("null");
        reveal_strlit("integer");
        reveal_strlit("array");
        reveal_strlit("object");
        reveal_strlit("parenthesized_expression");
    }
    if has_kind(node, "string") {
        match first_child_of_kind(node, "string_content") {
            Some(i) => {
                proof {
                    lemma_first_kind_from(node.children@, "string_content"@, 0);
                }
                Ok(Some(BicepValue::String(node.children[i].text.clone())))
            },
            None => {
                proof {
                    reveal_strlit("string");
                    assert("string"@[0] == 's');
                    lemma_not_dropped(*node, "string");
                }
                Err(parse_error("No string_content child found"))
            },
        }
    } else if has_kind(node, "integer") {
        let t = chars_of(node.text.as_str());
        match parse_i64(t.as_slice()) {
            Some(k) => Ok(Some(BicepValue::Int(k))),
            None => Ok(None),
        }
    } else if has_kind(node, "boolean") {
        if str_eq(node.text.as_str(), "true") {
            Ok(Some(BicepValue::Bool(true)))
        } else if str_eq(node.text.as_str(), "false") {
            Ok(Some(BicepValue::Bool(false)))
        } else {
            proof {
                reveal_strlit("boolean");
                assert("boolean"@[0] == 'b');
                lemma_not_dropped(*node, "boolean");
            }
            Err(parse_error("Invalid boolean value"))
        }
    } else if has_kind(node, "array") {
        match first_child_of_kind(node, "array_item") {
            Some(i) => {
                proof {
                    lemma_first_kind_from(node.children@, "array_item"@, 0);
                    assert(decreases_to!(*node => node.children@[i as int]));
                }
                proof {
                    reveal_strlit("array");
                    reveal_strlit("integer");
                    reveal_strlit("parenthesized_expression");
                    assert("array"@.len() == 5);
                    assert(node.kind@ == "array"@);
                    assert(!kind_is(*node, "integer"@));
                    assert(!kind_is(*node, "parenthesized_expression"@));
                }
                let items = parse_array_items(&node.children[i])?;
                let r = BicepValue::Array(items);
                proof {
                    lemma_value_view_parts(r);
                }
                Ok(Some(r))
            },
            None => {
                let r = BicepValue::Array(Vec::new());
                proof {
                    lemma_value_view_parts(r);
                    assert(values_view(Seq::<BicepValue>::empty()) =~= Seq::<ValueView>::empty());
                }
                Ok(Some(r))
            },
        }
    } else if has_kind(node, "object") {
        proof {
            reveal_strlit("integer");
            reveal_strlit("parenthesized_expression");
            reveal_strlit("object");
            reveal_strlit("null");
            reveal_strlit("boolean");
            reveal_strlit("string");
            assert("object"@[0] == 'o');
            lemma_not_dropped(*node, "object");
        }
        let props = parse_object_properties_for_value(node)?;
        let r = BicepValue::Object(props);
        proof {
            lemma_value_view_parts(r);
        }
        Ok(Some(r))
    } else if has_kind(node, "parenthesized_expression") {
        let mut i: usize = 0;
        while i < node.children.len()
            invariant
                i <= node.children@.len(),
                value_model(*node) == paren_scan(*node, 0),
                paren_scan(*node, 0) == paren_scan(*node, i as int),
                value_dropped(*node) == paren_dropped(*node, 0),
                paren_dropped(*node, 0) == paren_dropped(*node, i as int),
            decreases node.children@.len() - i,
        {
            if !has_kind(&node.children[i], "(") && !has_kind(&node.children[i], ")") {
                proof {
                    assert(decreases_to!(*node => node.children@[i as int]));
                }
                return parse_value_node(&node.children[i]);
            }
            i = i + 1;
        }
        Ok(Some(BicepValue::String(node.text.clone())))
    } else if has_kind(node, "null") {
        proof {
            reveal_strlit("integer");
            reveal_strlit("parenthesized_expression");
            reveal_strlit("object");
            reveal_strlit("null");
            reveal_strlit("boolean");
            reveal_strlit("string");
        }
        Ok(Some(BicepValue::String("null".to_string())))
    } else {
        proof {
            reveal_strlit("integer");
            reveal_strlit("parenthesized_expression");
            reveal_strlit("object");
            reveal_strlit("null");
            reveal_strlit("boolean");
            reveal_strlit("string");
        }
        Ok(Some(BicepValue::String(node.text.clone())))
    }
}

/// Parses the items of an `array_item` node, skipping the commas.
pub fn parse_array_items(node: &SyntaxNode) -> (r: Result<Vec<BicepValue>, BicepParserError>)
    ensures
        match items_scan(*node, 0, Seq::empty()) {
            Some(s) => r matches Ok(v) && values_view(v@) == s,
            None => r is Err,
        },
    decreases node, 1int, 0int,
{
    let mut items: Vec<BicepValue> = Vec::new();
    let mut i: usize = 0;
    assert(values_view(items@) =~= Seq::<ValueView>::empty());
    while i < node.children.len()
        invariant
            i <= node.children@.len(),
            items_scan(*node, 0, Seq::empty()) == items_scan(*node, i as int, values_view(items@)),
        decreases node.children@.len() - i,
    {
        let child = &node.children[i];
        if !has_kind(child, ",") {
            proof {
                assert(decreases_to!(*node => node.children@[i as int]));
            }
            match parse_value_node(child)? {
                Some(v) => {
                    let ghost before = items@;
                    items.push(v);
                    assert(values_view(items@) =~= values_view(before).push(value_view(v)));
                },
                None => {},
            }
        }
        i = i + 1;
    }
    Ok(items)
}

/// Parses the properties of an object value, in order; a repeated key keeps
/// its first position and takes the later value.
pub fn parse_object_properties_for_value(node: &SyntaxNode) -> (r: Result<
    OrderedMap<BicepValue>,
    BicepParserError,
>)
    ensures
        match object_scan(*node, 0, Seq::empty()) {
            Some(s) => r matches Ok(m) && entries_view(m@) == s,
            None => r is Err,
        },
    decreases node, 1int, 0int,
{
    let mut props: OrderedMap<BicepValue> = OrderedMap::new();
    let mut i: usize = 0;
    assert(entries_view(props@) =~= Seq::<(Seq<char>, ValueView)>::empty());
    while i < node.children.len()
        invariant
            i <= node.children@.len(),
            object_scan(*node, 0, Seq::empty()) == object_scan(
                *node,
                i as int,
                entries_view(props@),
            ),
        decreases node.children@.len() - i,
    {
        let child = &node.children[i];
        if has_kind(child, "object_property") {
            proof {
                assert(decreases_to!(*node => node.children@[i as int]));
            }
            let mut key: Option<String> = None;
            let mut value: Option<BicepValue> = None;
            let mut j: usize = 0;
            while j < child.children.len()
                invariant
                    j <= child.children@.len(),
                    i < node.children@.len(),
                    *child == node.children@[i as int],
                    kind_is(*child, "object_property"@),
                    object_scan(*node, 0, Seq::empty()) == object_scan(
                        *node,
                        i as int,
                        entries_view(props@),
                    ),
                    decreases_to!(*node => *child),
                    prop_scan(*child, 0, None, None) == prop_scan(
                        *child,
                        j as int,
                        super::str_view(key),
                        super::opt_value_view(value),
                    ),
                decreases child.children@.len() - j,
            {
                let pc = &child.children[j];
                let key_like = has_kind(pc, "identifier") || has_kind(pc, "string");
                if has_kind(pc, ":") || (value.is_some() && (key.is_some() || !key_like)) {
                } else if key_like && key.is_none() {
                    key = Some(pc.text.clone());
                } else {
                    proof {
                        assert(decreases_to!(*child => child.children@[j as int]));
                        assert(decreases_to!(*node => child.children@[j as int]));
                    }
                    match parse_value_node(pc)? {
                        Some(v) => {
                            value = Some(v);
                        },
                        None => {},
                    }
                }
                j = j + 1;
            }
            match (key, value) {
                (Some(k), Some(v)) => {
                    proof {
                        lemma_entries_view_insert(props@, k, v);
                    }
                    props.insert(k, v);
                },
                _ => {},
            }
        }
        i = i + 1;
    }
    Ok(props)
}

} // verus!
