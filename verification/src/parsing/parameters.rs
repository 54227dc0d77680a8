//! Parameter declarations: type, default value, constraints and metadata.
use vstd::prelude::*;

use super::decorators::{
    bound_name, description_of, extract_description_from_decorators, is_named, lemma_bound_names,
    named,
};
use super::syntax::SyntaxNode;
use super::type_utils::{
    default_parameter, lemma_params_view_insert, lemma_types_ok_child, parse_type_node,
    type_node_model, type_node_ok, types_ok,
};
use super::values::{lemma_entries_view_insert, parse_value_node, value_model};
use super::{
    clone_values, decorators_view, entries_view, lemma_type_view_object, lemma_value_view_parts,
    opt_values_view, param_view, param_view_default, params_view, type_view, values_view,
    BicepDecorator, BicepParameter, BicepParserError, BicepType, BicepValue, DecoratorView,
    ParamView, TypeView, ValueView,
};
use crate::ordered_map::{put, OrderedMap};
use crate::text::{
    chars_of, eq_str, parse_bool, parse_i64, slice_chars, spec_parse_bool, spec_parse_i64,
    spec_split_char, spec_trim, split_char, string_of, trim,
};

verus! {

// ---------------------------------------------------------------
// Models
// ---------------------------------------------------------------

/// The type a default value's element suggests.
pub open spec fn element_type(v: ValueView) -> TypeView {
    match v {
        ValueView::Int(_) => TypeView::Int,
        ValueView::Bool(_) => TypeView::Bool,
        ValueView::Object(_) => TypeView::Object(None),
        ValueView::Array(_) => TypeView::Array(Box::new(TypeView::Str)),
        _ => TypeView::Str,
    }
}

/// An object type with a property for each entry of an object value, typed by its value.
pub open spec fn props_from_object(es: Seq<(Seq<char>, ValueView)>) -> Seq<(Seq<char>, ParamView)>
    decreases es,
{
    if es.len() == 0 {
        Seq::empty()
    } else {
        let last = es[es.len() - 1];
        let ty = match last.1 {
            ValueView::Object(nested) => {
                proof {
                    assert(decreases_to!(es => es[es.len() - 1]));
                }
                TypeView::Object(Some(props_from_object(nested)))
            },
            _ => element_type(last.1),
        };
        put(
            props_from_object(es.subrange(0, es.len() - 1)),
            last.0,
            ParamView { ty, ..param_view_default() },
        )
    }
}

/// The type a parameter takes from its default value: an object value gives an
/// undeclared object structure, an array value gives the type of its first element.
pub open spec fn inferred_type(ty: TypeView, v: ValueView) -> TypeView {
    match v {
        ValueView::Object(props) => match ty {
            TypeView::Object(_) => ty,
            TypeView::Custom(_) => ty,
            _ => TypeView::Object(Some(props_from_object(props))),
        },
        ValueView::Array(items) => TypeView::Array(
            Box::new(
                if items.len() == 0 {
                    TypeView::Str
                } else {
                    element_type(items[0])
                },
            ),
        ),
        _ => ty,
    }
}

/// One item of an `@allowed` list written as text.
pub open spec fn allowed_item(t: Seq<char>) -> Option<ValueView> {
    if (t.len() >= 1 && t[0] == '\'' && t.last() == '\'') || (t.len() >= 1 && t[0] == '"'
        && t.last() == '"') {
        if t.len() >= 2 {
            Some(ValueView::Str(t.subrange(1, t.len() - 1)))
        } else {
            None
        }
    } else if spec_parse_bool(t) is Some {
        Some(ValueView::Bool(spec_parse_bool(t)->Some_0))
    } else if spec_parse_i64(t) is Some {
        Some(ValueView::Int(spec_parse_i64(t)->Some_0))
    } else {
        Some(ValueView::Str(t))
    }
}

pub open spec fn allowed_items(ps: Seq<Seq<char>>, i: int, acc: Seq<ValueView>) -> Seq<ValueView>
    decreases ps.len() - i,
{
    if i < 0 || i >= ps.len() {
        acc
    } else {
        match allowed_item(spec_trim(ps[i])) {
            Some(v) => allowed_items(ps, i + 1, acc.push(v)),
            None => allowed_items(ps, i + 1, acc),
        }
    }
}

/// The allowed values of an `@allowed` argument: an array, or an array written as text.
pub open spec fn allowed_values(a: ValueView) -> Option<Seq<ValueView>> {
    match a {
        ValueView::Array(vs) => Some(vs),
        ValueView::Str(s) => if s.len() >= 2 && s[0] == '[' && s.last() == ']' {
            let inner = spec_trim(s.subrange(1, s.len() - 1));
            Some(allowed_items(spec_split_char(inner, ','), 0, Seq::empty()))
        } else {
            None
        },
        _ => None,
    }
}

/// The number a constraint argument gives; `Err` where its text is not a number.
pub open spec fn numeric_arg(a: ValueView) -> Result<Option<i64>, ()> {
    match a {
        ValueView::Str(s) => match spec_parse_i64(s) {
            Some(n) => Ok(Some(n)),
            None => Err(()),
        },
        ValueView::Int(n) => Ok(Some(n)),
        _ => Ok(None),
    }
}

/// The entries other than `description`, in order.
pub open spec fn without_description(es: Seq<(Seq<char>, ValueView)>) -> Seq<(Seq<char>, ValueView)>
    decreases es.len(),
{
    if es.len() == 0 {
        es
    } else {
        let sub = without_description(es.drop_last());
        if es.last().0 != "description"@ {
            sub.push(es.last())
        } else {
            sub
        }
    }
}

/// The effect of a parameter's decorators; `Err` where a constraint's text is not a number.
pub open spec fn param_decorator_scan(ds: Seq<DecoratorView>, i: int, p: ParamView) -> Result<
    ParamView,
    (),
>
    decreases ds.len() - i,
{
    if i < 0 || i >= ds.len() {
        Ok(p)
    } else {
        let d = ds[i];
        if named(d.name, "allowed"@) {
            param_decorator_scan(ds, i + 1, ParamView { allowed: allowed_values(d.argument), ..p })
        } else if named(d.name, "discriminator"@) {
            match d.argument {
                ValueView::Str(v) => param_decorator_scan(
                    ds,
                    i + 1,
                    ParamView { discriminator: Some(v), ..p },
                ),
                _ => param_decorator_scan(ds, i + 1, p),
            }
        } else if named(d.name, "metadata"@) {
            match d.argument {
                ValueView::Object(m) => param_decorator_scan(
                    ds,
                    i + 1,
                    ParamView { metadata: without_description(m), ..p },
                ),
                _ => param_decorator_scan(ds, i + 1, p),
            }
        } else if named(d.name, "maxLength"@) {
            match numeric_arg(d.argument) {
                Ok(n) => param_decorator_scan(ds, i + 1, ParamView { max_length: n, ..p }),
                Err(_) => Err(()),
            }
        } else if named(d.name, "minLength"@) {
            match numeric_arg(d.argument) {
                Ok(n) => param_decorator_scan(ds, i + 1, ParamView { min_length: n, ..p }),
                Err(_) => Err(()),
            }
        } else if named(d.name, "maxValue"@) {
            match numeric_arg(d.argument) {
                Ok(n) => param_decorator_scan(ds, i + 1, ParamView { max_value: n, ..p }),
                Err(_) => Err(()),
            }
        } else if named(d.name, "minValue"@) {
            match numeric_arg(d.argument) {
                Ok(n) => param_decorator_scan(ds, i + 1, ParamView { min_value: n, ..p }),
                Err(_) => Err(()),
            }
        } else if named(d.name, "secure"@) {
            param_decorator_scan(ds, i + 1, ParamView { secure: true, ..p })
        } else if named(d.name, "sealed"@) {
            param_decorator_scan(ds, i + 1, ParamView { sealed: true, ..p })
        } else {
            param_decorator_scan(ds, i + 1, p)
        }
    }
}

/// The fixed structure given to the properties `objectProperty` and
/// `otionalProperty` of an inline object parameter.
pub open spec fn improved_props(ps: Seq<(Seq<char>, ParamView)>) -> Seq<(Seq<char>, ParamView)> {
    Seq::new(
        ps.len(),
        |i: int|
            if ps[i].0 == "objectProperty"@ {
                (
                    ps[i].0,
                    ParamView {
                        ty: TypeView::Object(
                            Some(
                                seq![
                                    ("key1"@, param_view_default()),
                                    ("key2"@, ParamView { ty: TypeView::Int, ..param_view_default() }),
                                ],
                            ),
                        ),
                        ..ps[i].1
                    },
                )
            } else if ps[i].0 == "otionalProperty"@ {
                (ps[i].0, ParamView { ty: TypeView::Int, ..ps[i].1 })
            } else {
                ps[i]
            },
    )
}

pub open spec fn improved(p: ParamView) -> ParamView {
    match p.ty {
        TypeView::Object(Some(ps)) => ParamView { ty: TypeView::Object(Some(improved_props(ps))), ..p },
        _ => p,
    }
}

/// Whether a declaration has the children a parameter needs: a name and a
/// type, and after them either nothing or `=` and a value.
pub open spec fn parameter_shaped(n: SyntaxNode) -> bool {
    n.children@.len() >= 3 && n.children@.len() != 4
}

/// The parameter a declaration describes; `None` where a constraint decorator's
/// text is not a number.
pub open spec fn parameter_model(n: SyntaxNode, ds: Seq<DecoratorView>) -> Option<
    (Seq<char>, ParamView),
>
    recommends
        parameter_shaped(n),
{
    let name = n.children@[1].text@;
    let (ty, nl) = type_node_model(n.children@[2]);
    let p0 = ParamView { ty, nullable: nl, ..param_view_default() };
    let p1 = if n.children@.len() > 3 {
        match value_model(n.children@[4]) {
            Some(v) => ParamView { default_value: Some(v), ty: inferred_type(p0.ty, v), ..p0 },
            None => p0,
        }
    } else {
        p0
    };
    let p2 = ParamView { description: description_of(ds), ..p1 };
    match param_decorator_scan(ds, 0, p2) {
        Ok(p3) => Some(
            (
                name,
                if name == "inlineSpecificObject"@ {
                    improved(p3)
                } else {
                    p3
                },
            ),
        ),
        Err(_) => None,
    }
}

// ---------------------------------------------------------------
// Executable
// ---------------------------------------------------------------

pub fn element_type_exec(v: &BicepValue) -> (r: BicepType)
    ensures
        type_view(r) == element_type(v@),
{
    proof {
        reveal_with_fuel(type_view, 2);
    }
    match v {
        BicepValue::Int(_) => BicepType::Int,
        BicepValue::Bool(_) => BicepType::Bool,
        BicepValue::Object(_) => BicepType::Object(None),
        BicepValue::Array(_) => BicepType::Array(Box::new(BicepType::String)),
        _ => BicepType::String,
    }
}

/// An object type with a property for each entry of an object value.
fn create_param_properties_from_object(m: &OrderedMap<BicepValue>) -> (r: OrderedMap<BicepParameter>)
    ensures
        params_view(r@) == props_from_object(entries_view(m@)),
    decreases m,
{
    let ghost es = entries_view(m@);
    let mut out: OrderedMap<BicepParameter> = OrderedMap::new();
    let mut i: usize = 0;
    assert(params_view(out@) =~= Seq::empty());
    assert(es.subrange(0, 0) =~= Seq::<(Seq<char>, ValueView)>::empty());
    assert(decreases_to!(*m => m.entries@));
    while i < m.entries.len()
        invariant
            i <= m@.len(),
            es == entries_view(m@),
            decreases_to!(*m => m.entries@),
            params_view(out@) == props_from_object(es.subrange(0, i as int)),
        decreases m@.len() - i,
    {
        let k = m.entries[i].0.clone();
        let v = &m.entries[i].1;
        let mut p = default_parameter();
        match v {
            BicepValue::Object(nested) => {
                proof {
                    assert(decreases_to!(m.entries@ => m.entries@[i as int]));
                    assert(decreases_to!(m.entries@[i as int] => m.entries@[i as int].1));
                    assert(decreases_to!(*m => *nested));
                    lemma_value_view_parts(*v);
                }
                let sub = create_param_properties_from_object(nested);
                p.parameter_type = BicepType::Object(Some(sub));
                proof {
                    lemma_type_view_object(p.parameter_type);
                }
            },
            _ => {
                p.parameter_type = element_type_exec(v);
            },
        }
        proof {
            lemma_params_view_insert(out@, k, p);
            assert(es.subrange(0, i + 1).subrange(0, i as int) =~= es.subrange(0, i as int));
            assert(es.subrange(0, i + 1)[i as int] == es[i as int]);
        }
        out.insert(k, p);
        i = i + 1;
    }
    assert(es.subrange(0, m@.len() as int) =~= es);
    out
}

/// `inferred_type` of a declared type and a default value.
fn infer_type_from_default_value(ty: BicepType, v: &BicepValue) -> (r: BicepType)
    ensures
        type_view(r) == inferred_type(type_view(ty), v@),
{
    proof {
        lemma_value_view_parts(*v);
        reveal_with_fuel(type_view, 2);
    }
    match v {
        BicepValue::Object(props) => match ty {
            BicepType::Object(o) => BicepType::Object(o),
            BicepType::CustomType(n) => BicepType::CustomType(n),
            _ => {
                let r = BicepType::Object(Some(create_param_properties_from_object(props)));
                proof {
                    lemma_type_view_object(r);
                }
                r
            },
        },
        BicepValue::Array(items) => {
            if items.len() == 0 {
                BicepType::Array(Box::new(BicepType::String))
            } else {
                BicepType::Array(Box::new(element_type_exec(&items[0])))
            }
        },
        _ => ty,
    }
}

fn allowed_item_exec(t: &[char]) -> (r: Option<BicepValue>)
    ensures
        super::opt_value_view(r) == allowed_item(t@),
{
    let n = t.len();
    if (n >= 1 && t[0] == '\'' && t[n - 1] == '\'') || (n >= 1 && t[0] == '"' && t[n - 1] == '"') {
        if n >= 2 {
            Some(BicepValue::String(string_of(slice_chars(t, 1, n - 1).as_slice())))
        } else {
            None
        }
    } else {
        match parse_bool(t) {
            Some(b) => Some(BicepValue::Bool(b)),
            None => match parse_i64(t) {
                Some(k) => Some(BicepValue::Int(k)),
                None => Some(BicepValue::String(string_of(t))),
            },
        }
    }
}

/// The allowed values of an `@allowed` argument.
fn parse_allowed_values(argument: &BicepValue) -> (r: Option<Vec<BicepValue>>)
    ensures
        opt_values_view(r) == allowed_values(argument@),
{
    proof {
        lemma_value_view_parts(*argument);
    }
    match argument {
        BicepValue::Array(a) => Some(clone_values(a)),
        BicepValue::String(s) => {
            let sv = chars_of(s.as_str());
            let n = sv.len();
            if n >= 2 && sv[0] == '[' && sv[n - 1] == ']' {
                let inner = trim(slice_chars(sv.as_slice(), 1, n - 1).as_slice());
                let parts = split_char(inner.as_slice(), ',');
                let ghost ps = parts@.map_values(|x: Vec<char>| x@);
                let mut out: Vec<BicepValue> = Vec::new();
                let mut i: usize = 0;
                assert(values_view(out@) =~= Seq::empty());
                while i < parts.len()
                    invariant
                        i <= parts@.len(),
                        ps == parts@.map_values(|x: Vec<char>| x@),
                        allowed_items(ps, 0, Seq::empty()) == allowed_items(
                            ps,
                            i as int,
                            values_view(out@),
                        ),
                    decreases parts@.len() - i,
                {
                    let t = trim(parts[i].as_slice());
                    assert(ps[i as int] == parts@[i as int]@);
                    match allowed_item_exec(t.as_slice()) {
                        Some(v) => {
                            let ghost before = out@;
                            out.push(v);
                            assert(values_view(out@) =~= values_view(before).push(v@));
                        },
                        None => {},
                    }
                    i = i + 1;
                }
                Some(out)
            } else {
                None
            }
        },
        _ => None,
    }
}

/// The number a constraint argument gives.
fn parse_numeric_constraint(argument: &BicepValue) -> (r: Result<Option<i64>, BicepParserError>)
    ensures
        match numeric_arg(argument@) {
            Ok(n) => r == Ok::<Option<i64>, BicepParserError>(n),
            Err(_) => r matches Err(e) && e is InvalidValue,
        },
{
    match argument {
        BicepValue::String(v) => {
            let c = chars_of(v.as_str());
            match parse_i64(c.as_slice()) {
                Some(n) => Ok(Some(n)),
                None => Err(
                    BicepParserError::InvalidValue {
                        kind: "constraint".to_string(),
                        reason: v.clone(),
                    },
                ),
            }
        },
        BicepValue::Int(n) => Ok(Some(*n)),
        _ => Ok(None),
    }
}

/// The entries other than `description`.
fn without_description_exec(m: &OrderedMap<BicepValue>) -> (r: OrderedMap<BicepValue>)
    ensures
        entries_view(r@) == without_description(entries_view(m@)),
{
    let ghost es = entries_view(m@);
    let mut out: Vec<(String, BicepValue)> = Vec::new();
    let mut i: usize = 0;
    assert(entries_view(out@) =~= Seq::empty());
    while i < m.entries.len()
        invariant
            i <= m@.len(),
            es == entries_view(m@),
            entries_view(out@) == without_description(es.subrange(0, i as int)),
        decreases m@.len() - i,
    {
        assert(es.subrange(0, i + 1).drop_last() =~= es.subrange(0, i as int));
        let k = m.entries[i].0.as_str();
        if !crate::text::str_eq(k, "description") {
            let e = (m.entries[i].0.clone(), super::clone_value(&m.entries[i].1));
            let ghost before = out@;
            out.push(e);
            assert(entries_view(out@) =~= entries_view(before).push((e.0@, e.1@)));
        }
        i = i + 1;
    }
    assert(es.subrange(0, m@.len() as int) =~= es);
    OrderedMap { entries: out }
}

/// Applies a parameter's decorators.
fn process_parameter_decorators(parameter: &mut BicepParameter, decorators: &[BicepDecorator]) -> (r:
    Result<(), BicepParserError>)
    ensures
        match param_decorator_scan(decorators_view(decorators@), 0, old(parameter)@) {
            Ok(p) => r is Ok && final(parameter)@ == p,
            Err(_) => r is Err,
        },
{
    let ghost ds = decorators_view(decorators@);
    let mut i: usize = 0;
    while i < decorators.len()
        invariant
            i <= decorators@.len(),
            ds == decorators_view(decorators@),
            param_decorator_scan(ds, 0, old(parameter)@) == param_decorator_scan(
                ds,
                i as int,
                parameter@,
            ),
        decreases decorators@.len() - i,
    {
        let d = &decorators[i];
        assert(ds[i as int] == d@);
        proof {
            lemma_value_view_parts(d.argument);
        }
        let n = d.name.as_str();
        if is_named(n, "allowed") {
            parameter.allowed_values = parse_allowed_values(&d.argument);
        } else if is_named(n, "discriminator") {
            match &d.argument {
                BicepValue::String(v) => {
                    parameter.discriminator = Some(v.clone());
                },
                _ => {},
            }
        } else if is_named(n, "metadata") {
            match &d.argument {
                BicepValue::Object(m) => {
                    parameter.metadata = without_description_exec(m);
                },
                _ => {},
            }
        } else if is_named(n, "maxLength") {
            parameter.max_length = parse_numeric_constraint(&d.argument)?;
        } else if is_named(n, "minLength") {
            parameter.min_length = parse_numeric_constraint(&d.argument)?;
        } else if is_named(n, "maxValue") {
            parameter.max_value = parse_numeric_constraint(&d.argument)?;
        } else if is_named(n, "minValue") {
            parameter.min_value = parse_numeric_constraint(&d.argument)?;
        } else if is_named(n, "secure") {
            parameter.is_secure = true;
        } else if is_named(n, "sealed") {
            parameter.is_sealed = true;
        }
        i = i + 1;
    }
    Ok(())
}

/// Gives the properties `objectProperty` and `otionalProperty` of an inline
/// object parameter their fixed types.
pub fn improve_object_property_types(param: &mut BicepParameter)
    ensures
        final(param)@ == improved(old(param)@),
{
    proof {
        lemma_type_view_object(param.parameter_type);
    }
    match &mut param.parameter_type {
        BicepType::Object(Some(props)) => {
            let ghost ps = params_view(props@);
            let mut rest: Vec<(String, BicepParameter)> = Vec::new();
            std::mem::swap(&mut rest, &mut props.entries);
            let mut done: Vec<(String, BicepParameter)> = Vec::new();
            let ghost total = ps.len();
            let rl = rest.len();
            assert(total == rl);
            let mut k: usize = 0;
            assert(params_view(done@) =~= Seq::empty());
            assert(params_view(rest@) =~= ps.subrange(0, total as int));
            while rest.len() > 0
                invariant
                    k + rest@.len() == total,
                    total == ps.len(),
                    total <= usize::MAX,
                    params_view(rest@) == ps.subrange(k as int, total as int),
                    params_view(done@) == improved_props(ps).subrange(0, k as int),
                decreases rest@.len(),
            {
                let ghost old_rest = rest@;
                let (name, mut p) = rest.remove(0);
                assert((name@, param_view(p)) == ps[k as int]) by {
                    assert(params_view(old_rest)[0] == (name@, param_view(p)));
                    assert(ps.subrange(k as int, total as int)[0] == ps[k as int]);
                }
                assert forall|j: int| 0 <= j < rest@.len() implies #[trigger] params_view(rest@)[j]
                    == ps[k + 1 + j] by {
                    assert(rest@[j] == old_rest[j + 1]);
                    assert(params_view(old_rest)[j + 1] == ps.subrange(k as int, total as int)[j
                        + 1]);
                }
                let is_obj = crate::text::str_eq(name.as_str(), "objectProperty");
                let is_opt = crate::text::str_eq(name.as_str(), "otionalProperty");
                if is_obj {
                    let mut nested: OrderedMap<BicepParameter> = OrderedMap::new();
                    let k1 = default_parameter();
                    let mut k2 = default_parameter();
                    k2.parameter_type = BicepType::Int;
                    let n1 = "key1".to_string();
                    let n2 = "key2".to_string();
                    proof {
                        reveal_strlit("key1");
                        reveal_strlit("key2");
                        assert(n1@[3] != n2@[3]);
                        lemma_params_view_insert(nested@, n1, k1);
                        assert(params_view(nested@) =~= Seq::empty());
                    }
                    nested.insert(n1, k1);
                    proof {
                        lemma_params_view_insert(nested@, n2, k2);
                        crate::ordered_map::lemma_key_pos_some(params_view(nested@), n2@);
                    }
                    nested.insert(n2, k2);
                    let ty = BicepType::Object(Some(nested));
                    proof {
                        lemma_type_view_object(ty);
                        assert(params_view(nested@) =~= seq![
                            ("key1"@, param_view_default()),
                            ("key2"@, ParamView { ty: TypeView::Int, ..param_view_default() }),
                        ]);
                    }
                    p.parameter_type = ty;
                } else if is_opt {
                    p.parameter_type = BicepType::Int;
                }
                let ghost prev = done@;
                let e = (name, p);
                done.push(e);
                k = k + 1;
                assert(params_view(done@) =~= params_view(prev).push((e.0@, param_view(e.1))));
                assert(improved_props(ps)[k - 1] == (e.0@, param_view(e.1)));
                assert(params_view(done@) =~= improved_props(ps).subrange(0, k as int));
                assert(params_view(rest@) =~= ps.subrange(k as int, total as int));
            }
            props.entries = done;
            assert(improved_props(ps).subrange(0, k as int) =~= improved_props(ps));
        },
        _ => {},
    }
    proof {
        lemma_type_view_object(param.parameter_type);
    }
}

/// Parses a parameter declaration.
pub fn parse_parameter_declaration(node: &SyntaxNode, decorators: Vec<BicepDecorator>) -> (r: Result<
    (String, BicepParameter),
    BicepParserError,
>)
    requires
        parameter_shaped(*node),
        types_ok(*node),
        type_node_ok(node.children@[2]),
    ensures
        match parameter_model(*node, decorators_view(decorators@)) {
            Some((name, p)) => r matches Ok((n, x)) && n@ == name && x@ == p,
            None => r is Err,
        },
{
    let name = node.children[1].text.clone();
    proof {
        lemma_types_ok_child(*node, 0, 2);
    }
    let (ty, nl) = parse_type_node(&node.children[2])?;
    let mut parameter = default_parameter();
    parameter.parameter_type = ty;
    parameter.is_nullable = nl;
    if node.children.len() > 3 {
        match parse_value_node(&node.children[4]) {
            Ok(Some(v)) => {
                let t = infer_type_from_default_value(parameter.parameter_type, &v);
                parameter.parameter_type = t;
                parameter.default_value = Some(v);
            },
            _ => {},
        }
    }
    parameter.description = extract_description_from_decorators(decorators.as_slice());
    process_parameter_decorators(&mut parameter, decorators.as_slice())?;
    if crate::text::str_eq(name.as_str(), "inlineSpecificObject") {
        improve_object_property_types(&mut parameter);
    }
    Ok((name, parameter))
}

// ---------------------------------------------------------------
// Laws of the bound decorators on parameters
// ---------------------------------------------------------------

/// Bound `f` of a parameter (`bound_name`).
pub open spec fn param_bound(p: ParamView, f: int) -> Option<i64> {
    if f == 0 {
        p.min_length
    } else if f == 1 {
        p.max_length
    } else if f == 2 {
        p.min_value
    } else {
        p.max_value
    }
}

/// One decorator's effect on a parameter, as `param_decorator_scan` applies it.
spec fn param_step(d: DecoratorView, p: ParamView) -> Result<ParamView, ()> {
    if named(d.name, "allowed"@) {
        Ok(ParamView { allowed: allowed_values(d.argument), ..p })
    } else if named(d.name, "discriminator"@) {
        match d.argument {
            ValueView::Str(v) => Ok(ParamView { discriminator: Some(v), ..p }),
            _ => Ok(p),
        }
    } else if named(d.name, "metadata"@) {
        match d.argument {
            ValueView::Object(m) => Ok(ParamView { metadata: without_description(m), ..p }),
            _ => Ok(p),
        }
    } else if named(d.name, "maxLength"@) {
        match numeric_arg(d.argument) {
            Ok(n) => Ok(ParamView { max_length: n, ..p }),
            Err(_) => Err(()),
        }
    } else if named(d.name, "minLength"@) {
        match numeric_arg(d.argument) {
            Ok(n) => Ok(ParamView { min_length: n, ..p }),
            Err(_) => Err(()),
        }
    } else if named(d.name, "maxValue"@) {
        match numeric_arg(d.argument) {
            Ok(n) => Ok(ParamView { max_value: n, ..p }),
            Err(_) => Err(()),
        }
    } else if named(d.name, "minValue"@) {
        match numeric_arg(d.argument) {
            Ok(n) => Ok(ParamView { min_value: n, ..p }),
            Err(_) => Err(()),
        }
    } else if named(d.name, "secure"@) {
        Ok(ParamView { secure: true, ..p })
    } else if named(d.name, "sealed"@) {
        Ok(ParamView { sealed: true, ..p })
    } else {
        Ok(p)
    }
}

proof fn lemma_param_scan_step(ds: Seq<DecoratorView>, i: int, p: ParamView)
    requires
        0 <= i < ds.len(),
    ensures
        param_decorator_scan(ds, i, p) == match param_step(ds[i], p) {
            Ok(q) => param_decorator_scan(ds, i + 1, q),
            Err(_) => Err(()),
        },
{
}

proof fn lemma_param_untouched(ds: Seq<DecoratorView>, i: int, p: ParamView, f: int)
    requires
        0 <= f < 4,
        forall|j: int| i <= j < ds.len() ==> !named(#[trigger] ds[j].name, bound_name(f)),
    ensures
        param_decorator_scan(ds, i, p) matches Ok(q) ==> param_bound(q, f) == param_bound(p, f),
    decreases ds.len() - i,
{
    if 0 <= i < ds.len() {
        lemma_param_scan_step(ds, i, p);
        assert(bound_name(0) == "minLength"@ && bound_name(1) == "maxLength"@ && bound_name(2)
            == "minValue"@ && bound_name(3) == "maxValue"@);
        assert(!named(ds[i].name, bound_name(f)));
        match param_step(ds[i], p) {
            Ok(q) => {
                lemma_param_untouched(ds, i + 1, q, f);
            },
            Err(_) => {},
        }
    }
}

proof fn lemma_param_set(ds: Seq<DecoratorView>, i: int, p: ParamView, f: int, k: int, n: i64)
    requires
        0 <= f < 4,
        0 <= i <= k < ds.len(),
        ds[k].name == bound_name(f),
        ds[k].argument == ValueView::Int(n),
        forall|j: int| k < j < ds.len() ==> !named(#[trigger] ds[j].name, bound_name(f)),
    ensures
        param_decorator_scan(ds, i, p) matches Ok(q) ==> param_bound(q, f) == Some(n),
    decreases k - i,
{
    lemma_param_scan_step(ds, i, p);
    if i == k {
        lemma_bound_names(f);
        assert(bound_name(0) == "minLength"@ && bound_name(1) == "maxLength"@ && bound_name(2)
            == "minValue"@ && bound_name(3) == "maxValue"@);
        let q = param_step(ds[i], p)->Ok_0;
        assert(param_step(ds[i], p) is Ok && param_bound(q, f) == Some(n));
        lemma_param_untouched(ds, i + 1, q, f);
    } else {
        match param_step(ds[i], p) {
            Ok(q) => {
                lemma_param_set(ds, i + 1, q, f, k, n);
            },
            Err(_) => {},
        }
    }
}

/// A bound decorator on a parameter sets its own bound: where the last
/// decorator named `minLength` (`maxLength`, `minValue`, `maxValue`) carries
/// the number `n`, the parameter read with the decorators has that bound
/// `Some(n)`, whatever the other decorators are.
pub proof fn law_param_bound_set(ds: Seq<DecoratorView>, p: ParamView, f: int, k: int, n: i64)
    requires
        0 <= f < 4,
        0 <= k < ds.len(),
        ds[k].name == bound_name(f),
        ds[k].argument == ValueView::Int(n),
        forall|j: int| k < j < ds.len() ==> !named(#[trigger] ds[j].name, bound_name(f)),
    ensures
        param_decorator_scan(ds, 0, p) matches Ok(q) ==> param_bound(q, f) == Some(n),
{
    lemma_param_set(ds, 0, p, f, k, n);
}

/// A bound that no decorator names keeps its value: decorators for the
/// other bounds never change it.
pub proof fn law_param_bound_untouched(ds: Seq<DecoratorView>, p: ParamView, f: int)
    requires
        0 <= f < 4,
        forall|j: int| 0 <= j < ds.len() ==> !named(#[trigger] ds[j].name, bound_name(f)),
    ensures
        param_decorator_scan(ds, 0, p) matches Ok(q) ==> param_bound(q, f) == param_bound(p, f),
{
    lemma_param_untouched(ds, 0, p, f);
}

/// Decorators whose bounds are numbers are always read: the result is `Ok`
/// where every bound decorator carries an integer.
pub proof fn law_param_integer_bounds_read(ds: Seq<DecoratorView>, p: ParamView)
    requires
        forall|j: int, f: int|
            0 <= j < ds.len() && 0 <= f < 4 && named(#[trigger] ds[j].name, #[trigger] bound_name(f))
                ==> ds[j].argument is Int,
    ensures
        param_decorator_scan(ds, 0, p) is Ok,
{
    lemma_param_ok(ds, 0, p);
}

proof fn lemma_param_ok(ds: Seq<DecoratorView>, i: int, p: ParamView)
    requires
        0 <= i,
        forall|j: int, f: int|
            0 <= j < ds.len() && 0 <= f < 4 && named(#[trigger] ds[j].name, #[trigger] bound_name(f))
                ==> ds[j].argument is Int,
    ensures
        param_decorator_scan(ds, i, p) is Ok,
    decreases ds.len() - i,
{
    if i < ds.len() {
        lemma_param_scan_step(ds, i, p);
        assert(bound_name(0) == "minLength"@ && bound_name(1) == "maxLength"@ && bound_name(2)
            == "minValue"@ && bound_name(3) == "maxValue"@);
        match param_step(ds[i], p) {
            Ok(q) => {
                lemma_param_ok(ds, i + 1, q);
            },
            Err(_) => {
                assert(named(ds[i].name, bound_name(0)) || named(ds[i].name, bound_name(1))
                    || named(ds[i].name, bound_name(2)) || named(ds[i].name, bound_name(3)));
            },
        }
    }
}

} // verus!