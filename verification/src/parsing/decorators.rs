//! Decorators: their parsing, and the description, metadata and constraints
//! that declarations take from them.
use vstd::prelude::*;

use super::syntax::{kind_is, SyntaxNode};
use super::values::{has_kind, parse_value_node, value_model};
use super::{
    clone_value_map, decorators_view, entries_view, lemma_value_view_parts, str_view, value_view,
    BicepDecorator, BicepParserError, BicepValue, DecoratorView, ValueView,
};
use crate::ordered_map::{
    drop_key, get_key, index_of, lemma_index_of, lemma_key_pos, lookup, remove_entry,
    same_keys, OrderedMap,
};
use crate::text::{chars_of, eq_str, parse_i64, spec_parse_i64, spec_trim, str_eq, trim_string};

verus! {

// ---------------------------------------------------------------
// Models
// ---------------------------------------------------------------

/// Whether a decorator name is `base` or `sys.base`.
pub open spec fn named(n: Seq<char>, base: Seq<char>) -> bool {
    n == base || n == "sys."@ + base
}

/// The text of a non-empty string value.
pub open spec fn nonempty_str(a: ValueView) -> Option<Seq<char>> {
    match a {
        ValueView::Str(t) => if t.len() > 0 {
            Some(t)
        } else {
            None
        },
        _ => None,
    }
}

/// The non-empty `description` entry of an object value.
pub open spec fn meta_desc(a: ValueView) -> Option<Seq<char>> {
    match a {
        ValueView::Object(m) => match get_key(m, "description"@) {
            Some(v) => nonempty_str(v),
            None => None,
        },
        _ => None,
    }
}

/// The first non-empty `@description` text from decorator `i` on.
pub open spec fn explicit_description(ds: Seq<DecoratorView>, i: int) -> Option<Seq<char>>
    decreases ds.len() - i,
{
    if i < 0 || i >= ds.len() {
        None
    } else if named(ds[i].name, "description"@) && nonempty_str(ds[i].argument) is Some {
        nonempty_str(ds[i].argument)
    } else {
        explicit_description(ds, i + 1)
    }
}

/// The first non-empty `description` entry of a `@metadata` object from decorator `i` on.
pub open spec fn metadata_description(ds: Seq<DecoratorView>, i: int) -> Option<Seq<char>>
    decreases ds.len() - i,
{
    if i < 0 || i >= ds.len() {
        None
    } else if named(ds[i].name, "metadata"@) && meta_desc(ds[i].argument) is Some {
        meta_desc(ds[i].argument)
    } else {
        metadata_description(ds, i + 1)
    }
}

/// A declaration's description: an explicit `@description` first, else a
/// `description` inside `@metadata`.
pub open spec fn description_of(ds: Seq<DecoratorView>) -> Option<Seq<char>> {
    match explicit_description(ds, 0) {
        Some(t) => Some(t),
        None => metadata_description(ds, 0),
    }
}

/// The decorator that a `decorator` node writes; `None` where its argument cannot be read.
pub open spec fn decorator_model(node: SyntaxNode) -> Option<DecoratorView>
    recommends
        node.children@.len() >= 2,
{
    match call_scan(node.children@[1], 0, Seq::empty(), ValueView::Str(Seq::empty())) {
        Some((n, a)) => Some(DecoratorView { name: n, argument: a }),
        None => None,
    }
}

/// The name and argument of a decorator's call expression, from child `i` on.
pub open spec fn call_scan(c: SyntaxNode, i: int, name: Seq<char>, arg: ValueView) -> Option<
    (Seq<char>, ValueView),
>
    decreases c.children@.len() - i,
{
    if i < 0 || i >= c.children@.len() {
        Some((name, arg))
    } else {
        let ch = c.children@[i];
        if kind_is(ch, "identifier"@) || kind_is(ch, "member_expression"@) {
            call_scan(c, i + 1, spec_trim(ch.text@), arg)
        } else if kind_is(ch, "arguments"@) {
            match args_scan(ch, 0, arg) {
                Some(a) => call_scan(c, i + 1, name, a),
                None => None,
            }
        } else {
            call_scan(c, i + 1, name, arg)
        }
    }
}

/// The last argument of an argument list, from child `j` on.
pub open spec fn args_scan(a: SyntaxNode, j: int, arg: ValueView) -> Option<ValueView>
    decreases a.children@.len() - j,
{
    if j < 0 || j >= a.children@.len() {
        Some(arg)
    } else {
        let g = a.children@[j];
        if kind_is(g, "("@) || kind_is(g, ")"@) || kind_is(g, ","@) {
            args_scan(a, j + 1, arg)
        } else {
            match value_model(g) {
                Some(v) => args_scan(a, j + 1, v),
                None => None,
            }
        }
    }
}

/// A `decorator` node has the `@` and the call expression.
pub open spec fn decorator_shaped(n: SyntaxNode) -> bool {
    kind_is(n, "decorator"@) ==> n.children@.len() >= 2
}

/// Every `decorator` child of `n` is shaped.
pub open spec fn decorators_shaped(n: SyntaxNode) -> bool {
    forall|i: int| 0 <= i < n.children@.len() ==> decorator_shaped(#[trigger] n.children@[i])
}

/// Every `decorator` node of the tree is shaped.
pub open spec fn well_shaped(n: SyntaxNode) -> bool
    decreases n,
{
    decorator_shaped(n) && forall|i: int|
        0 <= i < n.children@.len() ==> #[trigger] well_shaped_child(n, i)
}

pub open spec fn well_shaped_child(n: SyntaxNode, i: int) -> bool
    decreases n, 0int,
{
    if 0 <= i < n.children@.len() {
        well_shaped(n.children@[i])
    } else {
        true
    }
}

/// The decorators of a `decorators` node, from child `i` on, after `acc`:
/// those that parse and have a name.
pub open spec fn decorators_scan(n: SyntaxNode, i: int, acc: Seq<DecoratorView>) -> Seq<
    DecoratorView,
>
    decreases n.children@.len() - i,
{
    if i < 0 || i >= n.children@.len() {
        acc
    } else if kind_is(n.children@[i], "decorator"@) {
        match decorator_model(n.children@[i]) {
            Some(d) => if d.name.len() > 0 {
                decorators_scan(n, i + 1, acc.push(d))
            } else {
                decorators_scan(n, i + 1, acc)
            },
            None => decorators_scan(n, i + 1, acc),
        }
    } else {
        decorators_scan(n, i + 1, acc)
    }
}

/// The number a constraint decorator's argument gives.
pub open spec fn numeric_constraint(a: ValueView) -> Option<i64> {
    match a {
        ValueView::Int(v) => Some(v),
        ValueView::Str(s) => spec_parse_i64(s),
        _ => None,
    }
}

/// A `@metadata` object without its `description` entry, if anything is left.
pub open spec fn metadata_without_description(a: ValueView) -> Option<
    Seq<(Seq<char>, ValueView)>,
> {
    match a {
        ValueView::Object(m) => if drop_key(m, "description"@).len() > 0 {
            Some(drop_key(m, "description"@))
        } else {
            None
        },
        _ => None,
    }
}

/// What the common decorators set: metadata, length and value bounds, and the
/// secure and sealed flags.
pub struct CommonView {
    pub metadata: Option<Seq<(Seq<char>, ValueView)>>,
    pub min_length: Option<i64>,
    pub max_length: Option<i64>,
    pub min_value: Option<i64>,
    pub max_value: Option<i64>,
    pub secure: bool,
    pub sealed: bool,
}

pub open spec fn common_start() -> CommonView {
    CommonView {
        metadata: None,
        min_length: None,
        max_length: None,
        min_value: None,
        max_value: None,
        secure: false,
        sealed: false,
    }
}

/// The effect of one decorator; a later decorator overrides an earlier one.
pub open spec fn common_step(st: CommonView, d: DecoratorView) -> CommonView {
    if named(d.name, "metadata"@) {
        CommonView { metadata: metadata_without_description(d.argument), ..st }
    } else if named(d.name, "minLength"@) {
        CommonView { min_length: numeric_constraint(d.argument), ..st }
    } else if named(d.name, "maxLength"@) {
        CommonView { max_length: numeric_constraint(d.argument), ..st }
    } else if named(d.name, "minValue"@) {
        CommonView { min_value: numeric_constraint(d.argument), ..st }
    } else if named(d.name, "maxValue"@) {
        CommonView { max_value: numeric_constraint(d.argument), ..st }
    } else if named(d.name, "secure"@) {
        CommonView { secure: true, ..st }
    } else if named(d.name, "sealed"@) {
        CommonView { sealed: true, ..st }
    } else {
        st
    }
}

pub open spec fn common_scan(ds: Seq<DecoratorView>, i: int, st: CommonView) -> CommonView
    decreases ds.len() - i,
{
    if i < 0 || i >= ds.len() {
        st
    } else {
        common_scan(ds, i + 1, common_step(st, ds[i]))
    }
}

pub open spec fn opt_entries_view(o: Option<OrderedMap<BicepValue>>) -> Option<
    Seq<(Seq<char>, ValueView)>,
> {
    match o {
        Some(m) => Some(entries_view(m@)),
        None => None,
    }
}

// ---------------------------------------------------------------
// Lemmas on maps of values
// ---------------------------------------------------------------

/// Reading a key, seen through the view.
pub proof fn lemma_get_key_view(s: Seq<(String, BicepValue)>, k: Seq<char>)
    ensures
        get_key(entries_view(s), k) == super::opt_value_view(lookup(s, k)),
{
    let w = entries_view(s);
    assert(same_keys(s, w));
    lemma_key_pos(s, w, k);
    lemma_index_of(s, k);
}

/// Removing a key, seen through the view.
pub proof fn lemma_entries_view_remove(s: Seq<(String, BicepValue)>, k: Seq<char>)
    ensures
        entries_view(remove_entry(s, k)) == drop_key(entries_view(s), k),
{
    let w = entries_view(s);
    assert(same_keys(s, w));
    lemma_key_pos(s, w, k);
    lemma_index_of(s, k);
    match index_of(s, k) {
        Some(i) => {
            let t = remove_entry(s, k);
            assert(t == s.remove(i));
            assert forall|j: int| 0 <= j < t.len() implies entries_view(t)[j] == drop_key(
                w,
                k,
            )[j] by {
                if j < i {
                    assert(t[j] == s[j]);
                } else {
                    assert(t[j] == s[j + 1]);
                }
            }
            assert(entries_view(t) =~= drop_key(w, k));
        },
        None => {},
    }
}

// ---------------------------------------------------------------
// Executable
// ---------------------------------------------------------------

/// A copy of a decorator.
pub fn clone_decorator(d: &BicepDecorator) -> (r: BicepDecorator)
    ensures
        r@ == d@,
{
    BicepDecorator { name: d.name.clone(), argument: super::clone_value(&d.argument) }
}

/// Whether `name` is `base` or `sys.base`.
pub fn is_named(name: &str, base: &str) -> (r: bool)
    ensures
        r == named(name@, base@),
{
    if str_eq(name, base) {
        return true;
    }
    let mut full: Vec<char> = Vec::new();
    crate::text::append_str(&mut full, "sys.");
    crate::text::append_str(&mut full, base);
    let nv = chars_of(name);
    crate::text::chars_eq(nv.as_slice(), full.as_slice())
}

/// The description of a declaration from its decorators (an explicit
/// `@description` first, else `description` inside `@metadata`; empty texts
/// do not count).
pub fn extract_description_from_decorators(decorators: &[BicepDecorator]) -> (r: Option<String>)
    ensures
        str_view(r) == description_of(decorators_view(decorators@)),
{
    let ghost ds = decorators_view(decorators@);
    let mut i: usize = 0;
    while i < decorators.len()
        invariant
            i <= decorators@.len(),
            ds == decorators_view(decorators@),
            explicit_description(ds, 0) == explicit_description(ds, i as int),
        decreases decorators@.len() - i,
    {
        let d = &decorators[i];
        assert(ds[i as int] == d@);
        if is_named(d.name.as_str(), "description") {
            match &d.argument {
                BicepValue::String(t) => {
                    if t.as_str().unicode_len() > 0 {
                        return Some(t.clone());
                    }
                },
                _ => {},
            }
        }
        i = i + 1;
    }
    let mut j: usize = 0;
    while j < decorators.len()
        invariant
            j <= decorators@.len(),
            ds == decorators_view(decorators@),
            explicit_description(ds, 0) is None,
            metadata_description(ds, 0) == metadata_description(ds, j as int),
        decreases decorators@.len() - j,
    {
        let d = &decorators[j];
        assert(ds[j as int] == d@);
        if is_named(d.name.as_str(), "metadata") {
            match &d.argument {
                BicepValue::Object(m) => {
                    proof {
                        lemma_value_view_parts(d.argument);
                        lemma_get_key_view(m@, "description"@);
                    }
                    match m.get("description") {
                        Some(BicepValue::String(t)) => {
                            if t.as_str().unicode_len() > 0 {
                                return Some(t.clone());
                            }
                        },
                        _ => {},
                    }
                },
                _ => {},
            }
        }
        j = j + 1;
    }
    None
}

/// Parses a `decorator` node: the name of its call and its last argument.
pub fn parse_decorator(node: &SyntaxNode) -> (r: Result<BicepDecorator, BicepParserError>)
    requires
        node.children@.len() >= 2,
    ensures
        match decorator_model(*node) {
            Some(d) => r matches Ok(x) && x@ == d,
            None => r is Err,
        },
{
    let mut name = String::new();
    let mut argument = BicepValue::String(String::new());
    let call = &node.children[1];
    let mut i: usize = 0;
    assert(argument@ == ValueView::Str(Seq::empty()));
    while i < call.children.len()
        invariant
            i <= call.children@.len(),
            node.children@.len() >= 2,
            *call == node.children@[1],
            call_scan(*call, 0, Seq::empty(), ValueView::Str(Seq::empty())) == call_scan(
                *call,
                i as int,
                name@,
                argument@,
            ),
        decreases call.children@.len() - i,
    {
        let ch = &call.children[i];
        if has_kind(ch, "identifier") || has_kind(ch, "member_expression") {
            name = trim_string(ch.text.as_str());
        } else if has_kind(ch, "arguments") {
            let ghost start = argument@;
            let mut j: usize = 0;
            while j < ch.children.len()
                invariant
                    j <= ch.children@.len(),
                    node.children@.len() >= 2,
                    *call == node.children@[1],
                    i < call.children@.len(),
                    *ch == call.children@[i as int],
                    kind_is(*ch, "arguments"@),
                    !(kind_is(*ch, "identifier"@) || kind_is(*ch, "member_expression"@)),
                    call_scan(*call, 0, Seq::empty(), ValueView::Str(Seq::empty())) == call_scan(
                        *call,
                        i as int,
                        name@,
                        start,
                    ),
                    args_scan(*ch, 0, start) == args_scan(*ch, j as int, argument@),
                decreases ch.children@.len() - j,
            {
                let g = &ch.children[j];
                if !(has_kind(g, "(") || has_kind(g, ")") || has_kind(g, ",")) {
                    match parse_value_node(g) {
                        Ok(Some(v)) => {
                            argument = v;
                        },
                        _ => {
                            let mut msg: Vec<char> = Vec::new();
                            crate::text::append_str(&mut msg, "Invalid decorator argument for ");
                            crate::text::append_str(&mut msg, name.as_str());
                            return Err(
                                BicepParserError::ParseError(
                                    crate::text::string_of(msg.as_slice()),
                                ),
                            );
                        },
                    }
                }
                j = j + 1;
            }
        }
        i = i + 1;
    }
    Ok(BicepDecorator { name, argument })
}

/// Parses the decorators of a `decorators` node; one that fails to parse, or
/// has no name, is left out.
pub fn parse_decorators(node: &SyntaxNode) -> (r: Result<Vec<BicepDecorator>, BicepParserError>)
    requires
        decorators_shaped(*node),
    ensures
        r matches Ok(v) && decorators_view(v@) == decorators_scan(*node, 0, Seq::empty()),
{
    let mut out: Vec<BicepDecorator> = Vec::new();
    let mut i: usize = 0;
    assert(decorators_view(out@) =~= Seq::<DecoratorView>::empty());
    while i < node.children.len()
        invariant
            i <= node.children@.len(),
            decorators_shaped(*node),
            decorators_scan(*node, 0, Seq::empty()) == decorators_scan(
                *node,
                i as int,
                decorators_view(out@),
            ),
        decreases node.children@.len() - i,
    {
        let c = &node.children[i];
        if has_kind(c, "decorator") {
            assert(decorator_shaped(node.children@[i as int]));
            match parse_decorator(c) {
                Ok(d) => {
                    if d.name.as_str().unicode_len() > 0 {
                        let ghost before = out@;
                        out.push(d);
                        assert(decorators_view(out@) =~= decorators_view(before).push(d@));
                    }
                },
                Err(_) => {},
            }
        }
        i = i + 1;
    }
    Ok(out)
}

/// The number a constraint decorator gives: its integer, or its text read as one.
pub fn extract_numeric_constraint(decorator: &BicepDecorator) -> (r: Option<i64>)
    ensures
        r == numeric_constraint(decorator.argument@),
{
    match &decorator.argument {
        BicepValue::Int(v) => Some(*v),
        BicepValue::String(s) => {
            let v = chars_of(s.as_str());
            parse_i64(v.as_slice())
        },
        _ => None,
    }
}

/// Whether a decorator is a flag without argument (`secure`, `export`, `sealed`).
pub fn is_boolean_flag_decorator(decorator_name: &str) -> (r: bool)
    ensures
        r == (named(decorator_name@, "secure"@) || named(decorator_name@, "export"@) || named(
            decorator_name@,
            "sealed"@,
        )),
{
    is_named(decorator_name, "secure") || is_named(decorator_name, "export") || is_named(
        decorator_name,
        "sealed",
    )
}

/// The entries of a `@metadata` object other than `description`, if any remain.
pub fn extract_metadata_without_description(decorator: &BicepDecorator) -> (r: Option<
    OrderedMap<BicepValue>,
>)
    ensures
        opt_entries_view(r) == metadata_without_description(decorator.argument@),
{
    match &decorator.argument {
        BicepValue::Object(map) => {
            proof {
                lemma_value_view_parts(decorator.argument);
            }
            let mut metadata = clone_value_map(map);
            proof {
                lemma_entries_view_remove(metadata@, "description"@);
            }
            metadata.shift_remove("description");
            if metadata.len() > 0 {
                Some(metadata)
            } else {
                None
            }
        },
        _ => None,
    }
}

/// What the common decorators of a declaration set: its description, its
/// metadata without description, its length and value bounds, and whether it
/// is secure and sealed. A later decorator of a kind overrides an earlier one.
pub fn process_common_decorators(decorators: &[BicepDecorator]) -> (r: (
    Option<String>,
    Option<OrderedMap<BicepValue>>,
    Option<i64>,
    Option<i64>,
    Option<i64>,
    Option<i64>,
    bool,
    bool,
))
    ensures
        str_view(r.0) == description_of(decorators_view(decorators@)),
        ({
            let st = common_scan(decorators_view(decorators@), 0, common_start());
            &&& opt_entries_view(r.1) == st.metadata
            &&& r.2 == st.min_length
            &&& r.3 == st.max_length
            &&& r.4 == st.min_value
            &&& r.5 == st.max_value
            &&& r.6 == st.secure
            &&& r.7 == st.sealed
        }),
{
    let description = extract_description_from_decorators(decorators);
    let ghost ds = decorators_view(decorators@);
    let mut metadata: Option<OrderedMap<BicepValue>> = None;
    let mut min_length: Option<i64> = None;
    let mut max_length: Option<i64> = None;
    let mut min_value: Option<i64> = None;
    let mut max_value: Option<i64> = None;
    let mut is_secure = false;
    let mut is_sealed = false;
    let mut i: usize = 0;
    while i < decorators.len()
        invariant
            i <= decorators@.len(),
            ds == decorators_view(decorators@),
            common_scan(ds, 0, common_start()) == common_scan(
                ds,
                i as int,
                CommonView {
                    metadata: opt_entries_view(metadata),
                    min_length,
                    max_length,
                    min_value,
                    max_value,
                    secure: is_secure,
                    sealed: is_sealed,
                },
            ),
        decreases decorators@.len() - i,
    {
        let d = &decorators[i];
        assert(ds[i as int] == d@);
        let n = d.name.as_str();
        if is_named(n, "metadata") {
            metadata = extract_metadata_without_description(d);
        } else if is_named(n, "minLength") {
            min_length = extract_numeric_constraint(d);
        } else if is_named(n, "maxLength") {
            max_length = extract_numeric_constraint(d);
        } else if is_named(n, "minValue") {
            min_value = extract_numeric_constraint(d);
        } else if is_named(n, "maxValue") {
            max_value = extract_numeric_constraint(d);
        } else if is_named(n, "secure") {
            is_secure = true;
        } else if is_named(n, "sealed") {
            is_sealed = true;
        }
        i = i + 1;
    }
    (description, metadata, min_length, max_length, min_value, max_value, is_secure, is_sealed)
}

// ---------------------------------------------------------------
// Laws of the bound decorators
// ---------------------------------------------------------------

/// The decorator that sets bound `f`: `minLength`, `maxLength`, `minValue`
/// or `maxValue` for `f` = 0, 1, 2, 3.
pub open spec fn bound_name(f: int) -> Seq<char> {
    if f == 0 {
        "minLength"@
    } else if f == 1 {
        "maxLength"@
    } else if f == 2 {
        "minValue"@
    } else {
        "maxValue"@
    }
}

/// Bound `f` of what the common decorators set.
pub open spec fn common_bound(st: CommonView, f: int) -> Option<i64> {
    if f == 0 {
        st.min_length
    } else if f == 1 {
        st.max_length
    } else if f == 2 {
        st.min_value
    } else {
        st.max_value
    }
}

/// No decorator name other than its own is read as a bound's name.
pub proof fn lemma_bound_names(f: int)
    requires
        0 <= f < 4,
    ensures
        forall|g: int| 0 <= g < 4 && g != f ==> !named(bound_name(f), #[trigger] bound_name(g)),
        !named(bound_name(f), "allowed"@),
        !named(bound_name(f), "discriminator"@),
        !named(bound_name(f), "metadata"@),
        !named(bound_name(f), "secure"@),
        !named(bound_name(f), "sealed"@),
        !named(bound_name(f), "description"@),
{
    reveal_strlit("description");
    reveal_strlit("allowed");
    reveal_strlit("discriminator");
    reveal_strlit("metadata");
    reveal_strlit("maxLength");
    reveal_strlit("minLength");
    reveal_strlit("maxValue");
    reveal_strlit("minValue");
    reveal_strlit("secure");
    reveal_strlit("sealed");
    reveal_strlit("sys.");
    assert("minLength"@.len() != "allowed"@.len());
    assert(("sys."@ + "allowed"@)[0] != "minLength"@[0]);
    assert("minLength"@.len() != "discriminator"@.len());
    assert(("sys."@ + "discriminator"@)[0] != "minLength"@[0]);
    assert("minLength"@.len() != "metadata"@.len());
    assert(("sys."@ + "metadata"@)[0] != "minLength"@[0]);
    assert("minLength"@[1] != "maxLength"@[1]);
    assert(("sys."@ + "maxLength"@)[0] != "minLength"@[0]);
    assert("minLength"@.len() != "maxValue"@.len());
    assert(("sys."@ + "maxValue"@)[0] != "minLength"@[0]);
    assert("minLength"@.len() != "minValue"@.len());
    assert(("sys."@ + "minValue"@)[0] != "minLength"@[0]);
    assert("minLength"@.len() != "secure"@.len());
    assert(("sys."@ + "secure"@)[0] != "minLength"@[0]);
    assert("minLength"@.len() != "sealed"@.len());
    assert(("sys."@ + "sealed"@)[0] != "minLength"@[0]);
    assert("maxLength"@.len() != "allowed"@.len());
    assert(("sys."@ + "allowed"@)[0] != "maxLength"@[0]);
    assert("maxLength"@.len() != "discriminator"@.len());
    assert(("sys."@ + "discriminator"@)[0] != "maxLength"@[0]);
    assert("maxLength"@.len() != "metadata"@.len());
    assert(("sys."@ + "metadata"@)[0] != "maxLength"@[0]);
    assert("maxLength"@[1] != "minLength"@[1]);
    assert(("sys."@ + "minLength"@)[0] != "maxLength"@[0]);
    assert("maxLength"@.len() != "maxValue"@.len());
    assert(("sys."@ + "maxValue"@)[0] != "maxLength"@[0]);
    assert("maxLength"@.len() != "minValue"@.len());
    assert(("sys."@ + "minValue"@)[0] != "maxLength"@[0]);
    assert("maxLength"@.len() != "secure"@.len());
    assert(("sys."@ + "secure"@)[0] != "maxLength"@[0]);
    assert("maxLength"@.len() != "sealed"@.len());
    assert(("sys."@ + "sealed"@)[0] != "maxLength"@[0]);
    assert("minValue"@.len() != "allowed"@.len());
    assert(("sys."@ + "allowed"@)[0] != "minValue"@[0]);
    assert("minValue"@.len() != "discriminator"@.len());
    assert(("sys."@ + "discriminator"@)[0] != "minValue"@[0]);
    assert("minValue"@[1] != "metadata"@[1]);
    assert(("sys."@ + "metadata"@)[0] != "minValue"@[0]);
    assert("minValue"@.len() != "maxLength"@.len());
    assert(("sys."@ + "maxLength"@)[0] != "minValue"@[0]);
    assert("minValue"@.len() != "minLength"@.len());
    assert(("sys."@ + "minLength"@)[0] != "minValue"@[0]);
    assert("minValue"@[1] != "maxValue"@[1]);
    assert(("sys."@ + "maxValue"@)[0] != "minValue"@[0]);
    assert("minValue"@.len() != "secure"@.len());
    assert(("sys."@ + "secure"@)[0] != "minValue"@[0]);
    assert("minValue"@.len() != "sealed"@.len());
    assert(("sys."@ + "sealed"@)[0] != "minValue"@[0]);
    assert("maxValue"@.len() != "allowed"@.len());
    assert(("sys."@ + "allowed"@)[0] != "maxValue"@[0]);
    assert("maxValue"@.len() != "discriminator"@.len());
    assert(("sys."@ + "discriminator"@)[0] != "maxValue"@[0]);
    assert("maxValue"@[1] != "metadata"@[1]);
    assert(("sys."@ + "metadata"@)[0] != "maxValue"@[0]);
    assert("maxValue"@.len() != "maxLength"@.len());
    assert(("sys."@ + "maxLength"@)[0] != "maxValue"@[0]);
    assert("maxValue"@.len() != "minLength"@.len());
    assert(("sys."@ + "minLength"@)[0] != "maxValue"@[0]);
    assert("maxValue"@[1] != "minValue"@[1]);
    assert(("sys."@ + "minValue"@)[0] != "maxValue"@[0]);
    assert("maxValue"@.len() != "secure"@.len());
    assert(("sys."@ + "secure"@)[0] != "maxValue"@[0]);
    assert("maxValue"@.len() != "sealed"@.len());
    assert(("sys."@ + "sealed"@)[0] != "maxValue"@[0]);
    assert("minLength"@.len() != "description"@.len());
    assert(("sys."@ + "description"@)[0] != "minLength"@[0]);
    assert("maxLength"@.len() != "description"@.len());
    assert(("sys."@ + "description"@)[0] != "maxLength"@[0]);
    assert("minValue"@.len() != "description"@.len());
    assert(("sys."@ + "description"@)[0] != "minValue"@[0]);
    assert("maxValue"@.len() != "description"@.len());
    assert(("sys."@ + "description"@)[0] != "maxValue"@[0]);
}

proof fn lemma_common_untouched(ds: Seq<DecoratorView>, i: int, st: CommonView, f: int)
    requires
        0 <= f < 4,
        forall|j: int| i <= j < ds.len() ==> !named(#[trigger] ds[j].name, bound_name(f)),
    ensures
        common_bound(common_scan(ds, i, st), f) == common_bound(st, f),
    decreases ds.len() - i,
{
    if 0 <= i < ds.len() {
        lemma_common_untouched(ds, i + 1, common_step(st, ds[i]), f);
    }
}

proof fn lemma_common_set(ds: Seq<DecoratorView>, i: int, st: CommonView, f: int, k: int, n: i64)
    requires
        0 <= f < 4,
        0 <= i <= k < ds.len(),
        ds[k].name == bound_name(f),
        ds[k].argument == ValueView::Int(n),
        forall|j: int| k < j < ds.len() ==> !named(#[trigger] ds[j].name, bound_name(f)),
    ensures
        common_bound(common_scan(ds, i, st), f) == Some(n),
    decreases k - i,
{
    let next = common_step(st, ds[i]);
    if i == k {
        lemma_bound_names(f);
        assert(bound_name(0) == "minLength"@ && bound_name(1) == "maxLength"@ && bound_name(2)
            == "minValue"@ && bound_name(3) == "maxValue"@);
        assert(common_bound(next, f) == Some(n));
        lemma_common_untouched(ds, i + 1, next, f);
    } else {
        lemma_common_set(ds, i + 1, next, f, k, n);
    }
}

/// A bound decorator sets its own bound: where the last decorator named
/// `minLength` (`maxLength`, `minValue`, `maxValue`) carries the number `n`,
/// the decorators give that bound as `Some(n)`, whatever the others are.
pub proof fn law_common_bound_set(ds: Seq<DecoratorView>, f: int, k: int, n: i64)
    requires
        0 <= f < 4,
        0 <= k < ds.len(),
        ds[k].name == bound_name(f),
        ds[k].argument == ValueView::Int(n),
        forall|j: int| k < j < ds.len() ==> !named(#[trigger] ds[j].name, bound_name(f)),
    ensures
        common_bound(common_scan(ds, 0, common_start()), f) == Some(n),
{
    lemma_common_set(ds, 0, common_start(), f, k, n);
}

/// A bound that no decorator names is left unset: decorators for the other
/// bounds never set it.
pub proof fn law_common_bound_untouched(ds: Seq<DecoratorView>, f: int)
    requires
        0 <= f < 4,
        forall|j: int| 0 <= j < ds.len() ==> !named(#[trigger] ds[j].name, bound_name(f)),
    ensures
        common_bound(common_scan(ds, 0, common_start()), f) is None,
{
    lemma_common_untouched(ds, 0, common_start(), f);
}

} // verus!
