//! Custom type declarations: `type name = ...`, with object types whose
//! properties carry descriptions and constraints.
use vstd::prelude::*;

use super::decorators::{
    bound_name, decorator_model, decorator_shaped, lemma_bound_names, decorators_scan, decorators_shaped, description_of, named,
    is_named, parse_decorator, parse_decorators,
};
use super::syntax::{kind_is, SyntaxNode};
use super::type_utils::{
    array_model, default_parameter, lemma_params_view_insert, lemma_types_ok_child,
    parse_array_type, parse_property_type, parse_union_type, prim_or_custom, property_type_model,
    types_ok, union_model,
};
use super::values::has_kind;
use super::{
    decorators_view, lemma_type_view_object, param_view_default, params_view, str_view,
    type_view, BicepDecorator, BicepParameter, BicepParserError, BicepType, BicepValue,
    DecoratorView, ParamView, TypeView, ValueView,
};
use crate::ordered_map::{put, OrderedMap};
use crate::text::{contains_str, spec_contains, str_eq, string_of};

verus! {

/// A custom type declaration.
#[derive(Debug)]
pub struct BicepCustomType {
    /// Optional description from decorators
    pub description: Option<String>,
    /// The type's definition
    pub definition: BicepType,
    /// Whether the type is exported
    pub is_exported: bool,
    /// Whether the type is secure
    pub is_secure: bool,
}

pub struct CustomTypeView {
    pub description: Option<Seq<char>>,
    pub definition: TypeView,
    pub exported: bool,
    pub secure: bool,
}

impl View for BicepCustomType {
    type V = CustomTypeView;

    open spec fn view(&self) -> CustomTypeView {
        CustomTypeView {
            description: str_view(self.description),
            definition: type_view(self.definition),
            exported: self.is_exported,
            secure: self.is_secure,
        }
    }
}

// ---------------------------------------------------------------
// Models
// ---------------------------------------------------------------

/// A type named in a declaration (`boolean`, not `bool`, names the boolean type).
pub open spec fn decl_type_name(t: Seq<char>) -> TypeView {
    if t == "string"@ {
        TypeView::Str
    } else if t == "int"@ {
        TypeView::Int
    } else if t == "boolean"@ {
        TypeView::Bool
    } else if t == "object"@ {
        TypeView::Object(None)
    } else {
        TypeView::Custom(t)
    }
}

/// A primitive type written in a property; anything else is a custom type.
pub open spec fn prop_prim(t: Seq<char>) -> TypeView {
    if t == "string"@ {
        TypeView::Str
    } else if t == "int"@ {
        TypeView::Int
    } else if t == "bool"@ {
        TypeView::Bool
    } else if t == "object"@ {
        TypeView::Object(None)
    } else {
        TypeView::Custom(t)
    }
}

/// The first identifier child's text, from child `i` on.
pub open spec fn first_identifier(cs: Seq<SyntaxNode>, i: int) -> Seq<char>
    decreases cs.len() - i,
{
    if i < 0 || i >= cs.len() {
        Seq::empty()
    } else if kind_is(cs[i], "identifier"@) {
        cs[i].text@
    } else {
        first_identifier(cs, i + 1)
    }
}

/// What a property's decorators give.
pub struct PropDeco {
    pub description: Option<Seq<char>>,
    pub min_length: Option<i64>,
    pub max_length: Option<i64>,
    pub min_value: Option<i64>,
    pub max_value: Option<i64>,
    pub secure: bool,
}

/// Integer bounds and the secure flag from a decorator.
pub open spec fn bound_step(st: PropDeco, d: DecoratorView) -> PropDeco {
    if named(d.name, "minLength"@) && d.argument is Int {
        PropDeco { min_length: Some(d.argument->Int_0), ..st }
    } else if named(d.name, "maxLength"@) && d.argument is Int {
        PropDeco { max_length: Some(d.argument->Int_0), ..st }
    } else if named(d.name, "minValue"@) && d.argument is Int {
        PropDeco { min_value: Some(d.argument->Int_0), ..st }
    } else if named(d.name, "maxValue"@) && d.argument is Int {
        PropDeco { max_value: Some(d.argument->Int_0), ..st }
    } else if named(d.name, "secure"@) {
        PropDeco { secure: true, ..st }
    } else {
        st
    }
}

/// A decorator written on a property: its description, bounds and flag.
pub open spec fn prop_deco_step(st: PropDeco, d: DecoratorView) -> PropDeco {
    if named(d.name, "description"@) {
        match d.argument {
            ValueView::Str(t) => PropDeco { description: Some(t), ..st },
            _ => st,
        }
    } else {
        bound_step(st, d)
    }
}

/// The decorators of a decorators node on a property, from grandchild `j` on.
pub open spec fn prop_deco_inner(c: SyntaxNode, j: int, st: PropDeco) -> PropDeco
    decreases c.children@.len() - j,
{
    if j < 0 || j >= c.children@.len() {
        st
    } else if kind_is(c.children@[j], "decorator"@) && decorator_model(c.children@[j]) is Some {
        prop_deco_inner(c, j + 1, prop_deco_step(st, decorator_model(c.children@[j])->Some_0))
    } else {
        prop_deco_inner(c, j + 1, st)
    }
}

/// The decorators nodes of a property, from child `i` on.
pub open spec fn prop_deco_scan(p: SyntaxNode, i: int, st: PropDeco) -> PropDeco
    decreases p.children@.len() - i,
{
    if i < 0 || i >= p.children@.len() {
        st
    } else if kind_is(p.children@[i], "property_decorators"@) || kind_is(
        p.children@[i],
        "decorators"@,
    ) {
        prop_deco_scan(p, i + 1, prop_deco_inner(p.children@[i], 0, st))
    } else {
        prop_deco_scan(p, i + 1, st)
    }
}

pub open spec fn prop_deco_start() -> PropDeco {
    PropDeco {
        description: None,
        min_length: None,
        max_length: None,
        min_value: None,
        max_value: None,
        secure: false,
    }
}

/// The type of a nullable property type: from its primitive or identifier children.
pub open spec fn nullable_inner(c: SyntaxNode, j: int, ty: TypeView) -> TypeView
    decreases c.children@.len() - j,
{
    if j < 0 || j >= c.children@.len() {
        ty
    } else if kind_is(c.children@[j], "primitive_type"@) {
        nullable_inner(c, j + 1, prop_prim(c.children@[j].text@))
    } else if kind_is(c.children@[j], "identifier"@) {
        nullable_inner(c, j + 1, TypeView::Custom(c.children@[j].text@))
    } else {
        nullable_inner(c, j + 1, ty)
    }
}

/// The type of an object type's property read from its children, from child `i` on.
pub open spec fn prop_type_scan(p: SyntaxNode, i: int, colon: bool, ty: TypeView, nl: bool) -> (
    TypeView,
    bool,
)
    decreases p, 2int, p.children@.len() - i,
{
    if i < 0 || i >= p.children@.len() {
        (ty, nl)
    } else {
        let c = p.children@[i];
        if kind_is(c, ":"@) {
            prop_type_scan(p, i + 1, true, ty, nl)
        } else if kind_is(c, "type"@) {
            prop_type_scan(p, i + 1, colon, property_type_model(c), nl)
        } else if kind_is(c, "primitive_type"@) {
            prop_type_scan(p, i + 1, colon, prop_prim(c.text@), nl)
        } else if kind_is(c, "nullable_type"@) {
            prop_type_scan(p, i + 1, colon, nullable_inner(c, 0, ty), true)
        } else if kind_is(c, "identifier"@) && colon {
            prop_type_scan(p, i + 1, colon, TypeView::Custom(c.text@), nl)
        } else if kind_is(c, "object"@) {
            prop_type_scan(p, i + 1, colon, TypeView::Object(Some(object_properties_model(c))), nl)
        } else {
            prop_type_scan(p, i + 1, colon, ty, nl)
        }
    }
}

/// A property of an object type: its name, type, nullability, description,
/// bounds and secure flag.
pub open spec fn object_property_model(p: SyntaxNode) -> (Seq<char>, ParamView)
    decreases p, 3int, 0int,
{
    let (ty, nl) = prop_type_scan(p, 0, false, TypeView::Str, false);
    let d = prop_deco_scan(p, 0, prop_deco_start());
    (
        first_identifier(p.children@, 0),
        ParamView {
            description: d.description,
            ty,
            nullable: nl || spec_contains(p.text@, "?"@),
            secure: d.secure,
            min_length: d.min_length,
            max_length: d.max_length,
            min_value: d.min_value,
            max_value: d.max_value,
            ..param_view_default()
        },
    )
}

/// A property with the decorators node written just before it applied.
pub open spec fn with_prop_decorators(p: ParamView, ds: Seq<DecoratorView>) -> ParamView {
    let desc = description_of(ds);
    let st = bound_scan(
        ds,
        0,
        PropDeco {
            description: None,
            min_length: p.min_length,
            max_length: p.max_length,
            min_value: p.min_value,
            max_value: p.max_value,
            secure: p.secure,
        },
    );
    ParamView {
        description: if desc is Some {
            desc
        } else {
            p.description
        },
        min_length: st.min_length,
        max_length: st.max_length,
        min_value: st.min_value,
        max_value: st.max_value,
        secure: st.secure,
        ..p
    }
}

pub open spec fn bound_scan(ds: Seq<DecoratorView>, i: int, st: PropDeco) -> PropDeco
    decreases ds.len() - i,
{
    if i < 0 || i >= ds.len() {
        st
    } else {
        bound_scan(ds, i + 1, bound_step(st, ds[i]))
    }
}

/// The properties of an object type.
pub open spec fn object_properties_model(n: SyntaxNode) -> Seq<(Seq<char>, ParamView)>
    decreases n, 3int, 0int,
{
    obj_props_scan(n, 0, Seq::empty())
}

/// The properties of an object type from child `i` on; a property named by
/// nothing is left out.
pub open spec fn obj_props_scan(n: SyntaxNode, i: int, acc: Seq<(Seq<char>, ParamView)>) -> Seq<
    (Seq<char>, ParamView),
>
    decreases n, 2int, n.children@.len() - i,
{
    if i < 0 || i >= n.children@.len() {
        acc
    } else if kind_is(n.children@[i], "object_property"@) {
        let (name, p0) = object_property_model(n.children@[i]);
        let p = if i >= 1 && kind_is(n.children@[i - 1], "decorators"@) {
            with_prop_decorators(p0, decorators_scan(n.children@[i - 1], 0, Seq::empty()))
        } else {
            p0
        };
        if name.len() > 0 {
            obj_props_scan(n, i + 1, put(acc, name, p))
        } else {
            obj_props_scan(n, i + 1, acc)
        }
    } else {
        obj_props_scan(n, i + 1, acc)
    }
}

/// The definition read from a `type` child, from its child `j` on.
pub open spec fn type_child_scan(c: SyntaxNode, j: int, def: TypeView) -> TypeView
    decreases c.children@.len() - j,
{
    if j < 0 || j >= c.children@.len() {
        def
    } else {
        let t = c.children@[j];
        if kind_is(t, "string"@) || kind_is(t, "identifier"@) {
            type_child_scan(c, j + 1, decl_type_name(t.text@))
        } else if kind_is(t, "array_type"@) {
            type_child_scan(c, j + 1, TypeView::Array(Box::new(array_model(t))))
        } else if kind_is(t, "object_type"@) {
            type_child_scan(c, j + 1, TypeView::Object(Some(object_properties_model(t))))
        } else {
            type_child_scan(c, j + 1, def)
        }
    }
}

/// The definition of a type declaration read from its children, from child `i` on.
pub open spec fn decl_scan(cs: Seq<SyntaxNode>, i: int, def: TypeView) -> TypeView
    decreases cs.len() - i,
{
    if i < 0 || i >= cs.len() {
        def
    } else {
        let c = cs[i];
        if kind_is(c, "object_type"@) || kind_is(c, "object"@) {
            decl_scan(cs, i + 1, TypeView::Object(Some(object_properties_model(c))))
        } else if kind_is(c, "union_type"@) {
            decl_scan(cs, i + 1, union_model(c))
        } else if kind_is(c, "type"@) {
            decl_scan(cs, i + 1, type_child_scan(c, 0, def))
        } else if kind_is(c, "string"@) || kind_is(c, "identifier"@) {
            decl_scan(cs, i + 1, decl_type_name(c.text@))
        } else {
            decl_scan(cs, i + 1, def)
        }
    }
}

/// The type a declaration defines; `None` where it has no name.
pub open spec fn type_declaration_model(n: SyntaxNode) -> Option<(Seq<char>, CustomTypeView)> {
    let name = first_identifier(n.children@, 0);
    if name.len() == 0 {
        None
    } else {
        Some(
            (
                name,
                CustomTypeView {
                    description: None,
                    definition: decl_scan(n.children@, 0, TypeView::Object(None)),
                    exported: false,
                    secure: false,
                },
            ),
        )
    }
}

// ---------------------------------------------------------------
// Executable
// ---------------------------------------------------------------

fn first_identifier_exec(cs: &Vec<SyntaxNode>) -> (r: String)
    ensures
        r@ == first_identifier(cs@, 0),
{
    let mut i: usize = 0;
    while i < cs.len()
        invariant
            i <= cs@.len(),
            first_identifier(cs@, 0) == first_identifier(cs@, i as int),
        decreases cs@.len() - i,
    {
        if has_kind(&cs[i], "identifier") {
            return cs[i].text.clone();
        }
        i = i + 1;
    }
    String::new()
}

fn decl_type_name_exec(t: &str) -> (r: BicepType)
    ensures
        type_view(r) == decl_type_name(t@),
{
    if str_eq(t, "string") {
        BicepType::String
    } else if str_eq(t, "int") {
        BicepType::Int
    } else if str_eq(t, "boolean") {
        BicepType::Bool
    } else if str_eq(t, "object") {
        BicepType::Object(None)
    } else {
        BicepType::CustomType(t.to_string())
    }
}

fn prop_prim_exec(t: &str) -> (r: BicepType)
    ensures
        type_view(r) == prop_prim(t@),
{
    if str_eq(t, "string") {
        BicepType::String
    } else if str_eq(t, "int") {
        BicepType::Int
    } else if str_eq(t, "bool") {
        BicepType::Bool
    } else if str_eq(t, "object") {
        BicepType::Object(None)
    } else {
        BicepType::CustomType(t.to_string())
    }
}

/// Executable `PropDeco`.
struct PropDecoState {
    description: Option<String>,
    min_length: Option<i64>,
    max_length: Option<i64>,
    min_value: Option<i64>,
    max_value: Option<i64>,
    secure: bool,
}

impl View for PropDecoState {
    type V = PropDeco;

    closed spec fn view(&self) -> PropDeco {
        PropDeco {
            description: str_view(self.description),
            min_length: self.min_length,
            max_length: self.max_length,
            min_value: self.min_value,
            max_value: self.max_value,
            secure: self.secure,
        }
    }
}

fn bound_step_exec(st: &mut PropDecoState, d: &BicepDecorator)
    ensures
        final(st)@ == bound_step(old(st)@, d@),
{
    let n = d.name.as_str();
    let iv: Option<i64> = match &d.argument {
        BicepValue::Int(v) => Some(*v),
        _ => None,
    };
    if is_named(n, "minLength") && iv.is_some() {
        st.min_length = iv;
    } else if is_named(n, "maxLength") && iv.is_some() {
        st.max_length = iv;
    } else if is_named(n, "minValue") && iv.is_some() {
        st.min_value = iv;
    } else if is_named(n, "maxValue") && iv.is_some() {
        st.max_value = iv;
    } else if is_named(n, "secure") {
        st.secure = true;
    }
}

fn prop_deco_step_exec(st: &mut PropDecoState, d: &BicepDecorator)
    ensures
        final(st)@ == prop_deco_step(old(st)@, d@),
{
    if is_named(d.name.as_str(), "description") {
        match &d.argument {
            BicepValue::String(t) => {
                st.description = Some(t.clone());
            },
            _ => {},
        }
    } else {
        bound_step_exec(st, d);
    }
}

/// `prop_deco_scan` of a property node.
fn prop_decorators(p: &SyntaxNode) -> (r: PropDecoState)
    requires
        types_ok(*p),
    ensures
        r@ == prop_deco_scan(*p, 0, prop_deco_start()),
{
    let mut st = PropDecoState {
        description: None,
        min_length: None,
        max_length: None,
        min_value: None,
        max_value: None,
        secure: false,
    };
    let mut i: usize = 0;
    while i < p.children.len()
        invariant
            i <= p.children@.len(),
            types_ok(*p),
            prop_deco_scan(*p, 0, prop_deco_start()) == prop_deco_scan(*p, i as int, st@),
        decreases p.children@.len() - i,
    {
        let c = &p.children[i];
        if has_kind(c, "property_decorators") || has_kind(c, "decorators") {
            proof {
                lemma_types_ok_child(*p, 0, i as int);
            }
            let ghost s0 = st@;
            let mut j: usize = 0;
            while j < c.children.len()
                invariant
                    j <= c.children@.len(),
                    types_ok(*c),
                    prop_deco_inner(*c, 0, s0) == prop_deco_inner(*c, j as int, st@),
                decreases c.children@.len() - j,
            {
                let g = &c.children[j];
                if has_kind(g, "decorator") {
                    assert(decorator_shaped(c.children@[j as int]));
                    match parse_decorator(g) {
                        Ok(d) => {
                            prop_deco_step_exec(&mut st, &d);
                        },
                        Err(_) => {},
                    }
                }
                j = j + 1;
            }
        }
        i = i + 1;
    }
    st
}

/// Parses a property of an object type: name, type, nullability, description,
/// bounds and secure flag.
pub fn parse_object_property(node: &SyntaxNode) -> (r: Result<
    (String, BicepParameter),
    BicepParserError,
>)
    requires
        types_ok(*node),
    ensures
        r matches Ok((n, p)) && (n@, p@) == object_property_model(*node),
    decreases node, 3int, 0int,
{
    let name = first_identifier_exec(&node.children);
    let mut colon = false;
    let mut ty = BicepType::String;
    let mut nl = false;
    let mut i: usize = 0;
    while i < node.children.len()
        invariant
            i <= node.children@.len(),
            types_ok(*node),
            prop_type_scan(*node, 0, false, TypeView::Str, false) == prop_type_scan(
                *node,
                i as int,
                colon,
                type_view(ty),
                nl,
            ),
        decreases node.children@.len() - i,
    {
        let c = &node.children[i];
        proof {
            lemma_types_ok_child(*node, 0, i as int);
            assert(decreases_to!(*node => node.children@[i as int]));
        }
        if has_kind(c, ":") {
            colon = true;
        } else if has_kind(c, "type") {
            ty = parse_property_type(c)?;
        } else if has_kind(c, "primitive_type") {
            ty = prop_prim_exec(c.text.as_str());
        } else if has_kind(c, "nullable_type") {
            nl = true;
            let mut j: usize = 0;
            let ghost t0 = type_view(ty);
            while j < c.children.len()
                invariant
                    j <= c.children@.len(),
                    nullable_inner(*c, 0, t0) == nullable_inner(*c, j as int, type_view(ty)),
                decreases c.children@.len() - j,
            {
                let g = &c.children[j];
                if has_kind(g, "primitive_type") {
                    ty = prop_prim_exec(g.text.as_str());
                } else if has_kind(g, "identifier") {
                    ty = BicepType::CustomType(g.text.clone());
                }
                j = j + 1;
            }
        } else if has_kind(c, "identifier") && colon {
            ty = BicepType::CustomType(c.text.clone());
        } else if has_kind(c, "object") {
            let props = parse_object_properties(c)?;
            ty = BicepType::Object(Some(props));
            proof {
                lemma_type_view_object(ty);
            }
        }
        i = i + 1;
    }
    let d = prop_decorators(node);
    let q = contains_str(crate::text::chars_of(node.text.as_str()).as_slice(), "?");
    let mut param = default_parameter();
    param.description = d.description;
    param.parameter_type = ty;
    param.is_nullable = nl || q;
    param.is_secure = d.secure;
    param.min_length = d.min_length;
    param.max_length = d.max_length;
    param.min_value = d.min_value;
    param.max_value = d.max_value;
    Ok((name, param))
}

/// `with_prop_decorators` on a parameter.
fn apply_prop_decorators(p: &mut BicepParameter, ds: &Vec<BicepDecorator>)
    ensures
        final(p)@ == with_prop_decorators(old(p)@, decorators_view(ds@)),
{
    let ghost dv = decorators_view(ds@);
    let desc = super::decorators::extract_description_from_decorators(ds.as_slice());
    let mut st = PropDecoState {
        description: None,
        min_length: p.min_length,
        max_length: p.max_length,
        min_value: p.min_value,
        max_value: p.max_value,
        secure: p.is_secure,
    };
    let ghost s0 = st@;
    let mut i: usize = 0;
    while i < ds.len()
        invariant
            i <= ds@.len(),
            dv == decorators_view(ds@),
            bound_scan(dv, 0, s0) == bound_scan(dv, i as int, st@),
        decreases ds@.len() - i,
    {
        assert(dv[i as int] == ds@[i as int]@);
        bound_step_exec(&mut st, &ds[i]);
        i = i + 1;
    }
    if desc.is_some() {
        p.description = desc;
    }
    p.min_length = st.min_length;
    p.max_length = st.max_length;
    p.min_value = st.min_value;
    p.max_value = st.max_value;
    p.is_secure = st.secure;
}

/// Parses the properties of an object type, each with the decorators node
/// written just before it.
pub fn parse_object_properties(node: &SyntaxNode) -> (r: Result<
    OrderedMap<BicepParameter>,
    BicepParserError,
>)
    requires
        types_ok(*node),
    ensures
        r matches Ok(m) && params_view(m@) == object_properties_model(*node),
    decreases node, 3int, 0int,
{
    let mut props: OrderedMap<BicepParameter> = OrderedMap::new();
    let mut i: usize = 0;
    assert(params_view(props@) =~= Seq::empty());
    while i < node.children.len()
        invariant
            i <= node.children@.len(),
            types_ok(*node),
            obj_props_scan(*node, 0, Seq::empty()) == obj_props_scan(
                *node,
                i as int,
                params_view(props@),
            ),
        decreases node.children@.len() - i,
    {
        let c = &node.children[i];
        if has_kind(c, "object_property") {
            proof {
                lemma_types_ok_child(*node, 0, i as int);
                assert(decreases_to!(*node => node.children@[i as int]));
            }
            let (name, mut prop) = parse_object_property(c)?;
            if i >= 1 && has_kind(&node.children[i - 1], "decorators") {
                proof {
                    lemma_types_ok_child(*node, 0, i - 1);
                }
                match parse_decorators(&node.children[i - 1]) {
                    Ok(ds) => {
                        apply_prop_decorators(&mut prop, &ds);
                    },
                    Err(_) => {},
                }
            }
            if name.as_str().unicode_len() > 0 {
                proof {
                    lemma_params_view_insert(props@, name, prop);
                }
                props.insert(name, prop);
            }
        }
        i = i + 1;
    }
    Ok(props)
}

/// Parses a type declaration: its name and definition.
pub fn parse_type_declaration(node: &SyntaxNode) -> (r: Result<
    (String, BicepCustomType),
    BicepParserError,
>)
    requires
        types_ok(*node),
    ensures
        match type_declaration_model(*node) {
            Some((name, t)) => r matches Ok((n, x)) && n@ == name && x@ == t,
            None => r matches Err(e) && e is ParseError,
        },
{
    let name = first_identifier_exec(&node.children);
    if name.as_str().unicode_len() == 0 {
        return Err(
            BicepParserError::ParseError("Type declaration missing identifier".to_string()),
        );
    }
    let mut def = BicepType::Object(None);
    let mut i: usize = 0;
    while i < node.children.len()
        invariant
            i <= node.children@.len(),
            types_ok(*node),
            decl_scan(node.children@, 0, TypeView::Object(None)) == decl_scan(
                node.children@,
                i as int,
                type_view(def),
            ),
        decreases node.children@.len() - i,
    {
        let c = &node.children[i];
        proof {
            lemma_types_ok_child(*node, 0, i as int);
        }
        if has_kind(c, "object_type") || has_kind(c, "object") {
            let props = parse_object_properties(c)?;
            def = BicepType::Object(Some(props));
            proof {
                lemma_type_view_object(def);
            }
        } else if has_kind(c, "union_type") {
            def = parse_union_type(c)?;
        } else if has_kind(c, "type") {
            let ghost d0 = type_view(def);
            let mut j: usize = 0;
            while j < c.children.len()
                invariant
                    j <= c.children@.len(),
                    types_ok(*c),
                    type_child_scan(*c, 0, d0) == type_child_scan(*c, j as int, type_view(def)),
                decreases c.children@.len() - j,
            {
                let t = &c.children[j];
                proof {
                    lemma_types_ok_child(*c, 0, j as int);
                    reveal_with_fuel(type_view, 2);
                }
                if has_kind(t, "string") || has_kind(t, "identifier") {
                    def = decl_type_name_exec(t.text.as_str());
                } else if has_kind(t, "array_type") {
                    let inner = parse_array_type(t)?;
                    def = BicepType::Array(Box::new(inner));
                } else if has_kind(t, "object_type") {
                    let props = parse_object_properties(t)?;
                    def = BicepType::Object(Some(props));
                    proof {
                        lemma_type_view_object(def);
                    }
                }
                j = j + 1;
            }
        } else if has_kind(c, "string") || has_kind(c, "identifier") {
            def = decl_type_name_exec(c.text.as_str());
        }
        i = i + 1;
    }
    Ok((name, BicepCustomType { description: None, definition: def, is_exported: false, is_secure: false }))
}

/// Bound `f` of a property's decorators (`bound_name`).
pub open spec fn prop_bound(st: PropDeco, f: int) -> Option<i64> {
    if f == 0 {
        st.min_length
    } else if f == 1 {
        st.max_length
    } else if f == 2 {
        st.min_value
    } else {
        st.max_value
    }
}

/// On a property, a bound decorator with an integer sets its own bound to
/// that integer, and a decorator of another name leaves the bound as it was.
pub proof fn law_prop_bound_step(st: PropDeco, d: DecoratorView, f: int)
    requires
        0 <= f < 4,
    ensures
        d.name == bound_name(f) && d.argument is Int ==> prop_bound(prop_deco_step(st, d), f)
            == Some(d.argument->Int_0),
        !named(d.name, bound_name(f)) ==> prop_bound(prop_deco_step(st, d), f) == prop_bound(st, f),
{
    lemma_bound_names(f);
    assert(bound_name(0) == "minLength"@ && bound_name(1) == "maxLength"@ && bound_name(2)
        == "minValue"@ && bound_name(3) == "maxValue"@);
}

} // verus!