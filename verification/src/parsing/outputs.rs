//! Output declarations: type, value, description and constraints.
use vstd::prelude::*;

use super::decorators::{
    bound_name, description_of, lemma_bound_names, extract_description_from_decorators, extract_numeric_constraint,
    numeric_constraint, opt_entries_view,
};
use super::parameters::element_type;
use super::syntax::{kind_is, SyntaxNode};
use super::type_utils::{
    array_model, default_parameter, lemma_params_view_insert, lemma_types_ok_child,
    parse_array_type, types_ok,
};
use super::values::{has_kind, items_scan, parse_array_items, parse_value_node, value_model};
use super::{
    clone_value_map, decorators_view, entries_view, lemma_type_view_object, lemma_value_view_parts,
    param_view_default, params_view, str_view, type_view, value_view, values_view, BicepDecorator,
    BicepParameter, BicepParserError, BicepType, BicepValue, DecoratorView, ParamView, TypeView,
    ValueView,
};
use crate::ordered_map::{put, OrderedMap};
use crate::text::{str_eq, string_of};

verus! {

/// An output declaration.
#[derive(Debug)]
pub struct BicepOutput {
    /// Optional description from decorators
    pub description: Option<String>,
    /// The output's type
    pub output_type: BicepType,
    /// The output's value
    pub value: BicepValue,
    /// Discriminator property for union types
    pub discriminator: Option<String>,
    /// Minimum length constraint
    pub min_length: Option<i64>,
    /// Maximum length constraint
    pub max_length: Option<i64>,
    /// Minimum value constraint
    pub min_value: Option<i64>,
    /// Maximum value constraint
    pub max_value: Option<i64>,
    /// Metadata from `@metadata`
    pub metadata: Option<OrderedMap<BicepValue>>,
    /// Whether the output type is sealed
    pub sealed: bool,
    /// Whether the output holds sensitive data
    pub secure: bool,
}

pub struct OutputView {
    pub description: Option<Seq<char>>,
    pub ty: TypeView,
    pub value: ValueView,
    pub discriminator: Option<Seq<char>>,
    pub min_length: Option<i64>,
    pub max_length: Option<i64>,
    pub min_value: Option<i64>,
    pub max_value: Option<i64>,
    pub metadata: Option<Seq<(Seq<char>, ValueView)>>,
    pub sealed: bool,
    pub secure: bool,
}

impl View for BicepOutput {
    type V = OutputView;

    open spec fn view(&self) -> OutputView {
        OutputView {
            description: str_view(self.description),
            ty: type_view(self.output_type),
            value: value_view(self.value),
            discriminator: str_view(self.discriminator),
            min_length: self.min_length,
            max_length: self.max_length,
            min_value: self.min_value,
            max_value: self.max_value,
            metadata: opt_entries_view(self.metadata),
            sealed: self.sealed,
            secure: self.secure,
        }
    }
}

// ---------------------------------------------------------------
// Models
// ---------------------------------------------------------------

/// The decorator-given fields of an output (exact names, integer bounds).
pub struct OutDeco {
    pub discriminator: Option<Seq<char>>,
    pub max_length: Option<i64>,
    pub min_length: Option<i64>,
    pub max_value: Option<i64>,
    pub min_value: Option<i64>,
    pub metadata: Option<Seq<(Seq<char>, ValueView)>>,
    pub sealed: bool,
    pub secure: bool,
}

pub open spec fn out_deco_start() -> OutDeco {
    OutDeco {
        discriminator: None,
        max_length: None,
        min_length: None,
        max_value: None,
        min_value: None,
        metadata: None,
        sealed: false,
        secure: false,
    }
}

pub open spec fn out_deco_step(st: OutDeco, d: DecoratorView) -> OutDeco {
    if d.name == "discriminator"@ {
        match d.argument {
            ValueView::Str(v) => OutDeco { discriminator: Some(v), ..st },
            _ => st,
        }
    } else if d.name == "maxLength"@ {
        match numeric_constraint(d.argument) {
            Some(v) => OutDeco { max_length: Some(v), ..st },
            None => st,
        }
    } else if d.name == "minLength"@ {
        match numeric_constraint(d.argument) {
            Some(v) => OutDeco { min_length: Some(v), ..st },
            None => st,
        }
    } else if d.name == "maxValue"@ {
        match numeric_constraint(d.argument) {
            Some(v) => OutDeco { max_value: Some(v), ..st },
            None => st,
        }
    } else if d.name == "minValue"@ {
        match numeric_constraint(d.argument) {
            Some(v) => OutDeco { min_value: Some(v), ..st },
            None => st,
        }
    } else if d.name == "metadata"@ {
        match d.argument {
            ValueView::Object(m) => OutDeco { metadata: Some(m), ..st },
            _ => st,
        }
    } else if d.name == "sealed"@ {
        OutDeco { sealed: true, ..st }
    } else if d.name == "secure"@ {
        OutDeco { secure: true, ..st }
    } else {
        st
    }
}

pub open spec fn out_deco_scan(ds: Seq<DecoratorView>, i: int, st: OutDeco) -> OutDeco
    decreases ds.len() - i,
{
    if i < 0 || i >= ds.len() {
        st
    } else {
        out_deco_scan(ds, i + 1, out_deco_step(st, ds[i]))
    }
}

/// A type named in text: a primitive, `array` (of strings), or a custom type.
pub open spec fn text_type(t: Seq<char>) -> TypeView {
    if t == "string"@ {
        TypeView::Str
    } else if t == "int"@ {
        TypeView::Int
    } else if t == "bool"@ {
        TypeView::Bool
    } else if t == "array"@ {
        TypeView::Array(Box::new(TypeView::Str))
    } else if t == "object"@ {
        TypeView::Object(None)
    } else {
        TypeView::Custom(t)
    }
}

/// The type written after the output's name.
pub open spec fn type_after(cs: Seq<SyntaxNode>, i: int) -> TypeView {
    if i + 2 < cs.len() {
        let k = cs[i + 2];
        if kind_is(k, "type"@) || kind_is(k, "identifier"@) || kind_is(k, "array"@) {
            text_type(k.text@)
        } else if kind_is(k, "array_type"@) {
            array_model(k)
        } else {
            TypeView::Str
        }
    } else {
        TypeView::Str
    }
}

/// The name and declared type: after the first `output` keyword that is
/// followed by an identifier.
pub open spec fn out_head(cs: Seq<SyntaxNode>, i: int) -> (Seq<char>, TypeView)
    decreases cs.len() - i,
{
    if i < 0 || i >= cs.len() {
        (Seq::empty(), TypeView::Str)
    } else if kind_is(cs[i], "output"@) && i + 1 < cs.len() && kind_is(cs[i + 1], "identifier"@) {
        (cs[i + 1].text@, type_after(cs, i))
    } else {
        out_head(cs, i + 1)
    }
}

/// An object type with a property per entry of an object value, typed by its value.
pub open spec fn object_value_type(es: Seq<(Seq<char>, ValueView)>) -> Seq<(Seq<char>, ParamView)>
    decreases es.len(),
{
    if es.len() == 0 {
        Seq::empty()
    } else {
        put(
            object_value_type(es.drop_last()),
            es.last().0,
            ParamView { ty: element_type(es.last().1), ..param_view_default() },
        )
    }
}

/// The type suggested by the true branch of a conditional value.
pub open spec fn cond_type(v: ValueView) -> TypeView {
    match v {
        ValueView::Object(props) => TypeView::Object(Some(object_value_type(props))),
        _ => element_type(v),
    }
}

/// The type and value after the value `vn` assigned with `=`; `None` where an
/// array value's items cannot be read.
pub open spec fn assign_step(ty: TypeView, v: ValueView, vn: SyntaxNode) -> Option<
    (TypeView, ValueView),
> {
    let v1 = match value_model(vn) {
        Some(x) => x,
        None => v,
    };
    if kind_is(vn, "boolean"@) {
        if vn.text@ == "true"@ {
            Some((ty, ValueView::Bool(true)))
        } else if vn.text@ == "false"@ {
            Some((ty, ValueView::Bool(false)))
        } else {
            Some((ty, v1))
        }
    } else if kind_is(vn, "array"@) {
        match items_scan(vn, 0, Seq::empty()) {
            Some(items) => Some(
                (
                    if ty is Array {
                        ty
                    } else {
                        TypeView::Array(Box::new(TypeView::Str))
                    },
                    ValueView::Array(items),
                ),
            ),
            None => None,
        }
    } else if kind_is(vn, "object"@) {
        Some(
            (
                if ty is Str {
                    TypeView::Object(None)
                } else {
                    ty
                },
                v1,
            ),
        )
    } else if kind_is(vn, "conditional_expression"@) {
        let ty2 = if ty is Str && vn.children@.len() >= 5 {
            match value_model(vn.children@[2]) {
                Some(tv) => cond_type(tv),
                None => ty,
            }
        } else {
            ty
        };
        Some((ty2, ValueView::Str(vn.text@)))
    } else {
        Some((ty, v1))
    }
}

/// The type and value after the assignments from child `i` on.
pub open spec fn out_value_scan(cs: Seq<SyntaxNode>, i: int, ty: TypeView, v: ValueView) -> Option<
    (TypeView, ValueView),
>
    decreases cs.len() - i,
{
    if i < 0 || i >= cs.len() {
        Some((ty, v))
    } else if kind_is(cs[i], "="@) && i + 1 < cs.len() {
        match assign_step(ty, v, cs[i + 1]) {
            Some((t2, v2)) => out_value_scan(cs, i + 1, t2, v2),
            None => None,
        }
    } else {
        out_value_scan(cs, i + 1, ty, v)
    }
}

/// The output a declaration describes; `None` where an array value's items
/// cannot be read.
pub open spec fn output_model(n: SyntaxNode, ds: Seq<DecoratorView>) -> Option<
    (Seq<char>, OutputView),
> {
    let (name, ty0) = out_head(n.children@, 0);
    let dc = out_deco_scan(ds, 0, out_deco_start());
    match out_value_scan(n.children@, 0, ty0, ValueView::Str(Seq::empty())) {
        Some((ty, v)) => Some(
            (
                name,
                OutputView {
                    description: description_of(ds),
                    ty,
                    value: v,
                    discriminator: dc.discriminator,
                    min_length: dc.min_length,
                    max_length: dc.max_length,
                    min_value: dc.min_value,
                    max_value: dc.max_value,
                    metadata: dc.metadata,
                    sealed: dc.sealed,
                    secure: dc.secure,
                },
            ),
        ),
        None => None,
    }
}

// ---------------------------------------------------------------
// Executable
// ---------------------------------------------------------------

/// The decorator-given fields of an output.
fn extract_decorator_properties(decorators: &[BicepDecorator]) -> (r: (
    Option<String>,
    Option<i64>,
    Option<i64>,
    Option<i64>,
    Option<i64>,
    Option<OrderedMap<BicepValue>>,
    bool,
    bool,
))
    ensures
        ({
            let st = out_deco_scan(decorators_view(decorators@), 0, out_deco_start());
            &&& str_view(r.0) == st.discriminator
            &&& r.1 == st.max_length
            &&& r.2 == st.min_length
            &&& r.3 == st.max_value
            &&& r.4 == st.min_value
            &&& opt_entries_view(r.5) == st.metadata
            &&& r.6 == st.sealed
            &&& r.7 == st.secure
        }),
{
    let ghost ds = decorators_view(decorators@);
    let mut discriminator: Option<String> = None;
    let mut max_length: Option<i64> = None;
    let mut min_length: Option<i64> = None;
    let mut max_value: Option<i64> = None;
    let mut min_value: Option<i64> = None;
    let mut metadata: Option<OrderedMap<BicepValue>> = None;
    let mut sealed = false;
    let mut secure = false;
    let mut i: usize = 0;
    while i < decorators.len()
        invariant
            i <= decorators@.len(),
            ds == decorators_view(decorators@),
            out_deco_scan(ds, 0, out_deco_start()) == out_deco_scan(
                ds,
                i as int,
                OutDeco {
                    discriminator: str_view(discriminator),
                    max_length,
                    min_length,
                    max_value,
                    min_value,
                    metadata: opt_entries_view(metadata),
                    sealed,
                    secure,
                },
            ),
        decreases decorators@.len() - i,
    {
        let d = &decorators[i];
        assert(ds[i as int] == d@);
        proof {
            lemma_value_view_parts(d.argument);
        }
        let n = d.name.as_str();
        if str_eq(n, "discriminator") {
            if let BicepValue::String(v) = &d.argument {
                discriminator = Some(v.clone());
            }
        } else if str_eq(n, "maxLength") {
            if let Some(v) = extract_numeric_constraint(d) {
                max_length = Some(v);
            }
        } else if str_eq(n, "minLength") {
            if let Some(v) = extract_numeric_constraint(d) {
                min_length = Some(v);
            }
        } else if str_eq(n, "maxValue") {
            if let Some(v) = extract_numeric_constraint(d) {
                max_value = Some(v);
            }
        } else if str_eq(n, "minValue") {
            if let Some(v) = extract_numeric_constraint(d) {
                min_value = Some(v);
            }
        } else if str_eq(n, "metadata") {
            if let BicepValue::Object(m) = &d.argument {
                metadata = Some(clone_value_map(m));
            }
        } else if str_eq(n, "sealed") {
            sealed = true;
        } else if str_eq(n, "secure") {
            secure = true;
        }
        i = i + 1;
    }
    (discriminator, max_length, min_length, max_value, min_value, metadata, sealed, secure)
}

fn text_type_exec(t: &str) -> (r: BicepType)
    ensures
        type_view(r) == text_type(t@),
{
    proof {
        reveal_with_fuel(type_view, 2);
    }
    if str_eq(t, "string") {
        BicepType::String
    } else if str_eq(t, "int") {
        BicepType::Int
    } else if str_eq(t, "bool") {
        BicepType::Bool
    } else if str_eq(t, "array") {
        BicepType::Array(Box::new(BicepType::String))
    } else if str_eq(t, "object") {
        BicepType::Object(None)
    } else {
        BicepType::CustomType(t.to_string())
    }
}

/// `object_value_type` of an object value's entries.
fn object_value_type_exec(m: &OrderedMap<BicepValue>) -> (r: OrderedMap<BicepParameter>)
    ensures
        params_view(r@) == object_value_type(entries_view(m@)),
{
    let ghost es = entries_view(m@);
    let mut out: OrderedMap<BicepParameter> = OrderedMap::new();
    let mut i: usize = 0;
    assert(params_view(out@) =~= Seq::empty());
    assert(es.subrange(0, 0) =~= Seq::<(Seq<char>, ValueView)>::empty());
    while i < m.entries.len()
        invariant
            i <= m@.len(),
            es == entries_view(m@),
            params_view(out@) == object_value_type(es.subrange(0, i as int)),
        decreases m@.len() - i,
    {
        let k = m.entries[i].0.clone();
        let mut p = default_parameter();
        p.parameter_type = super::parameters::element_type_exec(&m.entries[i].1);
        proof {
            lemma_params_view_insert(out@, k, p);
            assert(es.subrange(0, i + 1).drop_last() =~= es.subrange(0, i as int));
        }
        out.insert(k, p);
        i = i + 1;
    }
    assert(es.subrange(0, m@.len() as int) =~= es);
    out
}

/// `assign_step` for the value node `vn`.
fn assign_step_exec(ty: BicepType, v: BicepValue, vn: &SyntaxNode) -> (r: Result<
    (BicepType, BicepValue),
    BicepParserError,
>)
    ensures
        match assign_step(type_view(ty), value_view(v), *vn) {
            Some((t2, v2)) => r matches Ok((a, b)) && type_view(a) == t2 && value_view(b) == v2,
            None => r is Err,
        },
{
    proof {
        reveal_with_fuel(type_view, 2);
    }
    let v1 = match parse_value_node(vn) {
        Ok(Some(x)) => x,
        _ => v,
    };
    if has_kind(vn, "boolean") {
        if str_eq(vn.text.as_str(), "true") {
            Ok((ty, BicepValue::Bool(true)))
        } else if str_eq(vn.text.as_str(), "false") {
            Ok((ty, BicepValue::Bool(false)))
        } else {
            Ok((ty, v1))
        }
    } else if has_kind(vn, "array") {
        let items = parse_array_items(vn)?;
        let nv = BicepValue::Array(items);
        proof {
            lemma_value_view_parts(nv);
        }
        let nt = match ty {
            BicepType::Array(inner) => BicepType::Array(inner),
            _ => BicepType::Array(Box::new(BicepType::String)),
        };
        Ok((nt, nv))
    } else if has_kind(vn, "object") {
        let nt = match ty {
            BicepType::String => BicepType::Object(None),
            other => other,
        };
        Ok((nt, v1))
    } else if has_kind(vn, "conditional_expression") {
        let is_str = match &ty {
            BicepType::String => true,
            _ => false,
        };
        let mut nt = ty;
        if is_str && vn.children.len() >= 5 {
            match parse_value_node(&vn.children[2]) {
                Ok(Some(tv)) => {
                    proof {
                        lemma_value_view_parts(tv);
                    }
                    match &tv {
                        BicepValue::Object(props) => {
                            let t = BicepType::Object(Some(object_value_type_exec(props)));
                            proof {
                                lemma_type_view_object(t);
                            }
                            nt = t;
                        },
                        _ => {
                            nt = super::parameters::element_type_exec(&tv);
                        },
                    }
                },
                _ => {},
            }
        }
        Ok((nt, BicepValue::String(vn.text.clone())))
    } else {
        Ok((ty, v1))
    }
}

/// Parses an output declaration.
pub fn parse_output_declaration(node: &SyntaxNode, decorators: Vec<BicepDecorator>) -> (r: Result<
    (String, BicepOutput),
    BicepParserError,
>)
    requires
        types_ok(*node),
    ensures
        match output_model(*node, decorators_view(decorators@)) {
            Some((name, o)) => r matches Ok((n, x)) && n@ == name && x@ == o,
            None => r is Err,
        },
{
    let description = extract_description_from_decorators(decorators.as_slice());
    let (discriminator, max_length, min_length, max_value, min_value, metadata, sealed, secure) =
        extract_decorator_properties(decorators.as_slice());
    let cs = &node.children;
    let mut name = String::new();
    let mut output_type = BicepType::String;
    let mut i: usize = 0;
    proof {
        reveal_with_fuel(type_view, 2);
    }
    while i < cs.len()
        invariant_except_break
            name@ == Seq::<char>::empty(),
            type_view(output_type) == TypeView::Str,
        invariant
            i <= cs@.len(),
            *cs == node.children,
            types_ok(*node),
            out_head(cs@, 0) == out_head(cs@, i as int),
        ensures
            (name@, type_view(output_type)) == out_head(cs@, 0),
        decreases cs@.len() - i,
    {
        if has_kind(&cs[i], "output") && i + 1 < cs.len() && has_kind(&cs[i + 1], "identifier") {
            name = cs[i + 1].text.clone();
            if i + 2 < cs.len() {
                let k = &cs[i + 2];
                if has_kind(k, "type") || has_kind(k, "identifier") || has_kind(k, "array") {
                    output_type = text_type_exec(k.text.as_str());
                } else if has_kind(k, "array_type") {
                    proof {
                        lemma_types_ok_child(*node, 0, i + 2);
                    }
                    output_type = parse_array_type(k)?;
                }
            }
            break;
        }
        i = i + 1;
    }

    let mut value = BicepValue::String(String::new());
    let mut j: usize = 0;
    while j < cs.len()
        invariant
            j <= cs@.len(),
            *cs == node.children,
            out_value_scan(cs@, 0, out_head(cs@, 0).1, ValueView::Str(Seq::empty()))
                == out_value_scan(cs@, j as int, type_view(output_type), value_view(value)),
        decreases cs@.len() - j,
    {
        if has_kind(&cs[j], "=") && j + 1 < cs.len() {
            let (t2, v2) = assign_step_exec(output_type, value, &cs[j + 1])?;
            output_type = t2;
            value = v2;
        }
        j = j + 1;
    }
    Ok(
        (
            name,
            BicepOutput {
                description,
                output_type,
                value,
                discriminator,
                min_length,
                max_length,
                min_value,
                max_value,
                metadata,
                sealed,
                secure,
            },
        ),
    )
}

/// Bound `f` of what an output's decorators give (`bound_name`).
pub open spec fn out_bound(st: OutDeco, f: int) -> Option<i64> {
    if f == 0 {
        st.min_length
    } else if f == 1 {
        st.max_length
    } else if f == 2 {
        st.min_value
    } else {
        st.max_value
    }
}

/// On an output, a bound decorator with a number sets its own bound to that
/// number, and a decorator of another name leaves the bound as it was.
pub proof fn law_output_bound_step(st: OutDeco, d: DecoratorView, f: int)
    requires
        0 <= f < 4,
    ensures
        d.name == bound_name(f) && numeric_constraint(d.argument) is Some ==> out_bound(
            out_deco_step(st, d),
            f,
        ) == numeric_constraint(d.argument),
        d.name != bound_name(f) ==> out_bound(out_deco_step(st, d), f) == out_bound(st, f),
{
    lemma_bound_names(f);
    assert(bound_name(0) == "minLength"@ && bound_name(1) == "maxLength"@ && bound_name(2)
        == "minValue"@ && bound_name(3) == "maxValue"@);
}

} // verus!