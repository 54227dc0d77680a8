//! User-defined function declarations: arguments, return type and body.
use vstd::prelude::*;

use super::decorators::{description_of, extract_description_from_decorators, is_named, named};
use super::syntax::{kind_is, SyntaxNode};
use super::type_utils::{
    lemma_types_ok_child, parse_property_type, parse_type_node, property_type_model,
    type_node_model, types_ok, types_ok_from, property_type_ok,
};
use super::values::has_kind;
use super::{
    clone_value_map, decorators_view, entries_view, lemma_value_view_parts, str_view, type_view,
    value_view, BicepDecorator, BicepParserError, BicepType, BicepValue, DecoratorView, TypeView,
    ValueView,
};
use crate::ordered_map::{put, OrderedMap};
use crate::text::{chars_of, spec_trim, string_of, trim};

verus! {

/// A user-defined function.
#[derive(Debug)]
pub struct BicepFunction {
    /// Optional description from decorators
    pub description: Option<String>,
    /// Metadata from `@metadata`, with a `description` entry from `@description`
    pub metadata: OrderedMap<BicepValue>,
    /// The function's arguments
    pub arguments: Vec<BicepFunctionArgument>,
    /// The declared return type
    pub return_type: BicepType,
    /// The function body expression
    pub expression: String,
    /// Whether the function is exported
    pub is_exported: bool,
}

/// An argument of a user-defined function.
#[derive(Debug)]
pub struct BicepFunctionArgument {
    /// The argument's name
    pub name: String,
    /// The argument's type
    pub argument_type: BicepType,
    /// Whether the argument is nullable
    pub is_nullable: bool,
}

pub struct ArgumentView {
    pub name: Seq<char>,
    pub ty: TypeView,
    pub nullable: bool,
}

impl View for BicepFunctionArgument {
    type V = ArgumentView;

    open spec fn view(&self) -> ArgumentView {
        ArgumentView { name: self.name@, ty: type_view(self.argument_type), nullable: self.is_nullable }
    }
}

pub open spec fn arguments_view(s: Seq<BicepFunctionArgument>) -> Seq<ArgumentView> {
    Seq::new(s.len(), |i: int| s[i]@)
}

pub struct FunctionView {
    pub description: Option<Seq<char>>,
    pub metadata: Seq<(Seq<char>, ValueView)>,
    pub arguments: Seq<ArgumentView>,
    pub return_type: TypeView,
    pub expression: Seq<char>,
    pub exported: bool,
}

impl View for BicepFunction {
    type V = FunctionView;

    open spec fn view(&self) -> FunctionView {
        FunctionView {
            description: str_view(self.description),
            metadata: entries_view(self.metadata@),
            arguments: arguments_view(self.arguments@),
            return_type: type_view(self.return_type),
            expression: self.expression@,
            exported: self.is_exported,
        }
    }
}

// ---------------------------------------------------------------
// Models
// ---------------------------------------------------------------

/// The name and type read from an argument's children, from child `i` on.
pub open spec fn arg_scan(n: SyntaxNode, i: int, name: Seq<char>, ty: TypeView, nl: bool) -> (
    Seq<char>,
    TypeView,
    bool,
)
    decreases n.children@.len() - i,
{
    if i < 0 || i >= n.children@.len() {
        (name, ty, nl)
    } else {
        let c = n.children@[i];
        if kind_is(c, "identifier"@) {
            arg_scan(n, i + 1, spec_trim(c.text@), ty, nl)
        } else if kind_is(c, "type"@) {
            arg_scan(n, i + 1, name, type_node_model(c).0, type_node_model(c).1)
        } else {
            arg_scan(n, i + 1, name, ty, nl)
        }
    }
}

/// An argument node; `None` where it has no name.
pub open spec fn argument_model(n: SyntaxNode) -> Option<ArgumentView> {
    let (name, ty, nl) = arg_scan(n, 0, Seq::empty(), TypeView::Str, false);
    if name.len() == 0 {
        None
    } else {
        Some(ArgumentView { name, ty, nullable: nl })
    }
}

/// The arguments of a parameter list from child `i` on; `None` where one has no name.
pub open spec fn params_scan(n: SyntaxNode, i: int, acc: Seq<ArgumentView>) -> Option<
    Seq<ArgumentView>,
>
    decreases n.children@.len() - i,
{
    if i < 0 || i >= n.children@.len() {
        Some(acc)
    } else if kind_is(n.children@[i], "parameter"@) {
        match argument_model(n.children@[i]) {
            Some(a) => params_scan(n, i + 1, acc.push(a)),
            None => None,
        }
    } else {
        params_scan(n, i + 1, acc)
    }
}

/// The metadata and export flag that a function's decorators give.
pub open spec fn fn_decorator_scan(
    ds: Seq<DecoratorView>,
    i: int,
    meta: Seq<(Seq<char>, ValueView)>,
    exported: bool,
) -> (Seq<(Seq<char>, ValueView)>, bool)
    decreases ds.len() - i,
{
    if i < 0 || i >= ds.len() {
        (meta, exported)
    } else {
        let d = ds[i];
        if named(d.name, "export"@) {
            fn_decorator_scan(ds, i + 1, meta, true)
        } else if named(d.name, "metadata"@) && d.argument is Object {
            fn_decorator_scan(ds, i + 1, d.argument->Object_0, exported)
        } else if named(d.name, "description"@) && d.argument is Str {
            fn_decorator_scan(ds, i + 1, put(meta, "description"@, d.argument), exported)
        } else {
            fn_decorator_scan(ds, i + 1, meta, exported)
        }
    }
}

/// The function a declaration describes; `None` where it has fewer than six
/// children, no name, or an argument without a name.
pub open spec fn function_model(n: SyntaxNode, ds: Seq<DecoratorView>) -> Option<
    (Seq<char>, FunctionView),
> {
    if n.children@.len() < 6 || spec_trim(n.children@[1].text@).len() == 0 {
        None
    } else {
        match params_scan(n.children@[2], 0, Seq::empty()) {
            Some(args) => {
                let (meta, exported) = fn_decorator_scan(ds, 0, Seq::empty(), false);
                Some(
                    (
                        spec_trim(n.children@[1].text@),
                        FunctionView {
                            description: description_of(ds),
                            metadata: meta,
                            arguments: args,
                            return_type: property_type_model(n.children@[3]),
                            expression: spec_trim(n.children@[5].text@),
                            exported,
                        },
                    ),
                )
            },
            None => None,
        }
    }
}

// ---------------------------------------------------------------
// Executable
// ---------------------------------------------------------------

fn trimmed(n: &SyntaxNode) -> (r: Vec<char>)
    ensures
        r@ == spec_trim(n.text@),
{
    let v = chars_of(n.text.as_str());
    trim(v.as_slice())
}

/// Parses a function argument: its name and type.
fn parse_function_argument(node: &SyntaxNode) -> (r: Result<
    BicepFunctionArgument,
    BicepParserError,
>)
    requires
        types_ok(*node),
    ensures
        match argument_model(*node) {
            Some(a) => r matches Ok(x) && x@ == a,
            None => r matches Err(e) && e is ParseError,
        },
{
    let mut name: Vec<char> = Vec::new();
    let mut ty = BicepType::String;
    let mut nl = false;
    let mut i: usize = 0;
    while i < node.children.len()
        invariant
            i <= node.children@.len(),
            types_ok_from(*node, 0),
            arg_scan(*node, 0, Seq::empty(), TypeView::Str, false) == arg_scan(
                *node,
                i as int,
                name@,
                type_view(ty),
                nl,
            ),
        decreases node.children@.len() - i,
    {
        let c = &node.children[i];
        if has_kind(c, "identifier") {
            name = trimmed(c);
        } else if has_kind(c, "type") {
            proof {
                lemma_types_ok_child(*node, 0, i as int);
            }
            let (t, b) = parse_type_node(c)?;
            ty = t;
            nl = b;
        }
        i = i + 1;
    }
    if name.len() == 0 {
        return Err(BicepParserError::ParseError("Function parameter missing name".to_string()));
    }
    Ok(BicepFunctionArgument { name: string_of(name.as_slice()), argument_type: ty, is_nullable: nl })
}

/// Parses the arguments of a parameter list.
fn parse_function_parameters(node: &SyntaxNode) -> (r: Result<
    Vec<BicepFunctionArgument>,
    BicepParserError,
>)
    requires
        types_ok(*node),
    ensures
        match params_scan(*node, 0, Seq::empty()) {
            Some(s) => r matches Ok(v) && arguments_view(v@) == s,
            None => r matches Err(e) && e is ParseError,
        },
{
    let mut out: Vec<BicepFunctionArgument> = Vec::new();
    let mut i: usize = 0;
    assert(arguments_view(out@) =~= Seq::empty());
    while i < node.children.len()
        invariant
            i <= node.children@.len(),
            types_ok_from(*node, 0),
            params_scan(*node, 0, Seq::empty()) == params_scan(
                *node,
                i as int,
                arguments_view(out@),
            ),
        decreases node.children@.len() - i,
    {
        let c = &node.children[i];
        if has_kind(c, "parameter") {
            proof {
                lemma_types_ok_child(*node, 0, i as int);
            }
            let a = parse_function_argument(c)?;
            let ghost before = out@;
            out.push(a);
            assert(arguments_view(out@) =~= arguments_view(before).push(a@));
        }
        i = i + 1;
    }
    Ok(out)
}

/// `fn_decorator_scan` of a function's decorators.
fn process_function_decorators(ds: &Vec<BicepDecorator>) -> (r: (OrderedMap<BicepValue>, bool))
    ensures
        (entries_view(r.0@), r.1) == fn_decorator_scan(decorators_view(ds@), 0, Seq::empty(), false),
{
    let ghost dv = decorators_view(ds@);
    let mut meta: OrderedMap<BicepValue> = OrderedMap::new();
    let mut exported = false;
    let mut i: usize = 0;
    assert(entries_view(meta@) =~= Seq::empty());
    while i < ds.len()
        invariant
            i <= ds@.len(),
            dv == decorators_view(ds@),
            fn_decorator_scan(dv, 0, Seq::empty(), false) == fn_decorator_scan(
                dv,
                i as int,
                entries_view(meta@),
                exported,
            ),
        decreases ds@.len() - i,
    {
        let d = &ds[i];
        assert(dv[i as int] == d@);
        let n = d.name.as_str();
        let is_meta_obj = is_named(n, "metadata") && match &d.argument {
            BicepValue::Object(_) => true,
            _ => false,
        };
        let is_desc_str = is_named(n, "description") && match &d.argument {
            BicepValue::String(_) => true,
            _ => false,
        };
        if is_named(n, "export") {
            exported = true;
        } else if is_meta_obj {
            match &d.argument {
                BicepValue::Object(m) => {
                    proof {
                        lemma_value_view_parts(d.argument);
                    }
                    meta = clone_value_map(m);
                },
                _ => {},
            }
        } else if is_desc_str {
            match &d.argument {
                BicepValue::String(t) => {
                    let v = BicepValue::String(t.clone());
                    let k = "description".to_string();
                    proof {
                        super::values::lemma_entries_view_insert(meta@, k, v);
                    }
                    meta.insert(k, v);
                },
                _ => {},
            }
        }
        i = i + 1;
    }
    (meta, exported)
}

/// Parses a function declaration.
pub fn parse_function_declaration(node: &SyntaxNode, decorators: Vec<BicepDecorator>) -> (r: Result<
    (String, BicepFunction),
    BicepParserError,
>)
    requires
        types_ok(*node),
        node.children@.len() >= 6 ==> property_type_ok(node.children@[3]),
    ensures
        match function_model(*node, decorators_view(decorators@)) {
            Some((name, f)) => r matches Ok((n, x)) && n@ == name && x@ == f,
            None => r matches Err(e) && e is ParseError,
        },
{
    if node.children.len() < 6 {
        return Err(
            BicepParserError::ParseError(
                "Function declaration missing required elements".to_string(),
            ),
        );
    }
    let name = trimmed(&node.children[1]);
    if name.len() == 0 {
        return Err(BicepParserError::ParseError("Function declaration missing name".to_string()));
    }
    proof {
        lemma_types_ok_child(*node, 0, 2);
        lemma_types_ok_child(*node, 0, 3);
    }
    let arguments = parse_function_parameters(&node.children[2])?;
    let return_type = parse_property_type(&node.children[3])?;
    let expression = string_of(trimmed(&node.children[5]).as_slice());
    let description = extract_description_from_decorators(decorators.as_slice());
    let (metadata, is_exported) = process_function_decorators(&decorators);
    Ok(
        (
            string_of(name.as_slice()),
            BicepFunction { description, metadata, arguments, return_type, expression, is_exported },
        ),
    )
}

} // verus!
