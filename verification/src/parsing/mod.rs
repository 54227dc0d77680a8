//! The Bicep document model and the parser that builds it from a syntax tree.
use vstd::prelude::*;

use crate::ordered_map::OrderedMap;
use crate::text::{
    append_chars, append_str, bool_text, chars_of, ends_with, int_decimal, join, slice_chars,
    spec_bool_text, spec_ends_with, spec_int_decimal, spec_join, spec_starts_with, starts_with,
    string_of,
};

pub mod modules;
pub mod syntax;
pub mod values;
pub mod decorators;
pub mod resources;
pub mod variables;
pub mod type_utils;
pub mod functions;
pub mod parameters;
pub mod outputs;
pub mod types;
pub mod imports;
pub mod document;
pub mod checks;
pub mod text_utils;

pub use decorators::extract_description_from_decorators;
pub use document::{parse_bicep_document, BicepDocument};
pub use functions::{BicepFunction, BicepFunctionArgument};
pub use imports::{parse_module_import, parse_namespace_import, BicepImport, BicepImportSymbol};
pub use modules::{parse_module_declaration, BicepModule, ModuleSource};
pub use outputs::{parse_output_declaration, BicepOutput};
pub use resources::BicepResource;
pub use syntax::SyntaxNode;
pub use types::BicepCustomType;
pub use variables::BicepVariable;

verus! {

// ---------------------------------------------------------------
// Errors
// ---------------------------------------------------------------

/// Errors of Bicep parsing operations.
#[derive(Debug, Clone, PartialEq)]
pub enum BicepParserError {
    /// Unknown node kind encountered during parsing
    UnknownKind(String),
    /// Invalid value found for a specific type
    InvalidValue { kind: String, reason: String },
    /// General parsing error
    ParseError(String),
}

pub open spec fn parser_error_text(e: BicepParserError) -> Seq<char> {
    match e {
        BicepParserError::UnknownKind(k) => "Unknown kind: "@ + k@,
        BicepParserError::InvalidValue { kind, reason } => "Invalid "@ + kind@ + " value: "@
            + reason@,
        BicepParserError::ParseError(m) => "Parse error: "@ + m@,
    }
}

impl BicepParserError {
    /// The human-readable message of the error.
    pub fn message(&self) -> (r: String)
        ensures
            r@ == parser_error_text(*self),
    {
        let mut out: Vec<char> = Vec::new();
        match self {
            BicepParserError::UnknownKind(k) => {
                append_str(&mut out, "Unknown kind: ");
                append_str(&mut out, k.as_str());
            },
            BicepParserError::InvalidValue { kind, reason } => {
                append_str(&mut out, "Invalid ");
                append_str(&mut out, kind.as_str());
                append_str(&mut out, " value: ");
                append_str(&mut out, reason.as_str());
            },
            BicepParserError::ParseError(m) => {
                append_str(&mut out, "Parse error: ");
                append_str(&mut out, m.as_str());
            },
        }
        string_of(out.as_slice())
    }
}

// ---------------------------------------------------------------
// Values and types
// ---------------------------------------------------------------

/// Values that Bicep variables, parameters and decorators hold.
#[derive(Debug)]
pub enum BicepValue {
    /// Array of values
    Array(Vec<BicepValue>),
    /// String literal value
    String(String),
    /// Numeric value (integer)
    Int(i64),
    /// Boolean value
    Bool(bool),
    /// Object with key-value pairs
    Object(OrderedMap<BicepValue>),
    /// Reference to another identifier in the template
    Identifier(String),
}

/// Type system for Bicep parameters and variables.
#[derive(Debug)]
pub enum BicepType {
    /// Array type with element type specification
    Array(Box<BicepType>),
    /// String primitive type
    String,
    /// Numeric primitive type (int in Bicep)
    Int,
    /// Boolean primitive type
    Bool,
    /// Object type - None for generic objects, Some for structured objects
    Object(Option<OrderedMap<BicepParameter>>),
    /// Reference to a custom type by name
    CustomType(String),
    /// Union type allowing multiple specific values
    Union(Vec<String>),
}

/// A parameter declaration (also used for object properties).
#[derive(Debug)]
pub struct BicepParameter {
    /// Optional description of the parameter's purpose
    pub description: Option<String>,
    /// Additional metadata associated with the parameter
    pub metadata: OrderedMap<BicepValue>,
    /// The parameter's type definition
    pub parameter_type: BicepType,
    /// Default value if parameter is not provided
    pub default_value: Option<BicepValue>,
    /// Discriminator property for union types
    pub discriminator: Option<String>,
    /// List of allowed values for the parameter
    pub allowed_values: Option<Vec<BicepValue>>,
    /// Whether the parameter can be null/optional
    pub is_nullable: bool,
    /// Whether the parameter type is sealed
    pub is_sealed: bool,
    /// Whether the parameter contains sensitive data
    pub is_secure: bool,
    /// Minimum length constraint for string parameters
    pub min_length: Option<i64>,
    /// Maximum length constraint for string parameters
    pub max_length: Option<i64>,
    /// Minimum value constraint for numeric parameters
    pub min_value: Option<i64>,
    /// Maximum value constraint for numeric parameters
    pub max_value: Option<i64>,
}

impl Default for BicepParameter {
    /// A string parameter with no description, metadata, default or constraints.
    fn default() -> (r: Self)
        ensures
            r.description is None,
            r.metadata@.len() == 0,
            r.parameter_type is String,
            r.default_value is None,
            r.discriminator is None,
            r.allowed_values is None,
            !r.is_nullable,
            !r.is_sealed,
            !r.is_secure,
            r.min_length is None,
            r.max_length is None,
            r.min_value is None,
            r.max_value is None,
    {
        BicepParameter {
            description: None,
            metadata: OrderedMap::new(),
            parameter_type: BicepType::String,
            default_value: None,
            discriminator: None,
            allowed_values: None,
            is_nullable: false,
            is_sealed: false,
            is_secure: false,
            min_length: None,
            max_length: None,
            min_value: None,
            max_value: None,
        }
    }
}

/// A decorator applied to a declaration, such as `@description('...')`.
#[derive(Debug)]
pub struct BicepDecorator {
    /// The decorator name (e.g., "description", "sys.secure")
    pub name: String,
    /// The decorator's argument value
    pub argument: BicepValue,
}

// ---------------------------------------------------------------
// Views: the content of values and types, with strings as characters
// ---------------------------------------------------------------

/// The content of a `BicepValue`.
pub enum ValueView {
    Array(Seq<ValueView>),
    Str(Seq<char>),
    Int(i64),
    Bool(bool),
    Object(Seq<(Seq<char>, ValueView)>),
    Ident(Seq<char>),
}

pub open spec fn value_view(v: BicepValue) -> ValueView
    decreases v,
{
    match v {
        BicepValue::Array(a) => {
            proof {
                assert(decreases_to!(v => a@));
            }
            ValueView::Array(
                Seq::new(
                    a@.len(),
                    |i: int|
                        if 0 <= i < a@.len() {
                            value_view(a@[i])
                        } else {
                            ValueView::Bool(false)
                        },
                ),
            )
        },
        BicepValue::String(s) => ValueView::Str(s@),
        BicepValue::Int(n) => ValueView::Int(n),
        BicepValue::Bool(b) => ValueView::Bool(b),
        BicepValue::Object(m) => {
            proof {
                assert(decreases_to!(v => m.entries@));
            }
            ValueView::Object(
                Seq::new(
                    m.entries@.len(),
                    |i: int|
                        if 0 <= i < m.entries@.len() {
                            (m.entries@[i].0@, value_view(m.entries@[i].1))
                        } else {
                            (Seq::empty(), ValueView::Bool(false))
                        },
                ),
            )
        },
        BicepValue::Identifier(s) => ValueView::Ident(s@),
    }
}

/// The views of a sequence of values.
pub open spec fn values_view(s: Seq<BicepValue>) -> Seq<ValueView> {
    Seq::new(s.len(), |i: int| value_view(s[i]))
}

/// The views of an object's entries.
pub open spec fn entries_view(s: Seq<(String, BicepValue)>) -> Seq<(Seq<char>, ValueView)> {
    Seq::new(s.len(), |i: int| (s[i].0@, value_view(s[i].1)))
}

impl View for BicepValue {
    type V = ValueView;

    open spec fn view(&self) -> ValueView {
        value_view(*self)
    }
}

pub proof fn lemma_value_view_parts(v: BicepValue)
    ensures
        v matches BicepValue::Array(a) ==> value_view(v) == ValueView::Array(values_view(a@)),
        v matches BicepValue::Object(m) ==> value_view(v) == ValueView::Object(
            entries_view(m.entries@),
        ),
{
    match v {
        BicepValue::Array(a) => {
            let inner = value_view(v)->Array_0;
            assert(inner.len() == a@.len());
            assert forall|i: int| 0 <= i < a@.len() implies inner[i] == values_view(a@)[i] by {}
            assert(inner =~= values_view(a@));
        },
        BicepValue::Object(m) => {
            let inner = value_view(v)->Object_0;
            assert(inner.len() == m.entries@.len());
            assert forall|i: int| 0 <= i < m.entries@.len() implies inner[i] == entries_view(
                m.entries@,
            )[i] by {}
            assert(inner =~= entries_view(m.entries@));
        },
        _ => {},
    }
}

/// The content of a `BicepType`.
pub enum TypeView {
    Array(Box<TypeView>),
    Str,
    Int,
    Bool,
    Object(Option<Seq<(Seq<char>, ParamView)>>),
    Custom(Seq<char>),
    Union(Seq<Seq<char>>),
}

/// The content of a `BicepParameter`.
pub struct ParamView {
    pub description: Option<Seq<char>>,
    pub metadata: Seq<(Seq<char>, ValueView)>,
    pub ty: TypeView,
    pub default_value: Option<ValueView>,
    pub discriminator: Option<Seq<char>>,
    pub allowed: Option<Seq<ValueView>>,
    pub nullable: bool,
    pub sealed: bool,
    pub secure: bool,
    pub min_length: Option<i64>,
    pub max_length: Option<i64>,
    pub min_value: Option<i64>,
    pub max_value: Option<i64>,
}

pub open spec fn str_view(o: Option<String>) -> Option<Seq<char>> {
    match o {
        Some(s) => Some(s@),
        None => None,
    }
}

pub open spec fn opt_value_view(o: Option<BicepValue>) -> Option<ValueView> {
    match o {
        Some(v) => Some(value_view(v)),
        None => None,
    }
}

pub open spec fn opt_values_view(o: Option<Vec<BicepValue>>) -> Option<Seq<ValueView>> {
    match o {
        Some(v) => Some(values_view(v@)),
        None => None,
    }
}

pub open spec fn type_view(t: BicepType) -> TypeView
    decreases t, 1int,
{
    match t {
        BicepType::Array(inner) => TypeView::Array(Box::new(type_view(*inner))),
        BicepType::String => TypeView::Str,
        BicepType::Int => TypeView::Int,
        BicepType::Bool => TypeView::Bool,
        BicepType::Object(None) => TypeView::Object(None),
        BicepType::Object(Some(m)) => {
            proof {
                assert(decreases_to!(t => m.entries@));
            }
            TypeView::Object(
                Some(
                    Seq::new(
                        m.entries@.len(),
                        |i: int|
                            if 0 <= i < m.entries@.len() {
                                (m.entries@[i].0@, param_view(m.entries@[i].1))
                            } else {
                                (Seq::empty(), param_view_default())
                            },
                    ),
                ),
            )
        },
        BicepType::CustomType(n) => TypeView::Custom(n@),
        BicepType::Union(vs) => TypeView::Union(vs@.map_values(|s: String| s@)),
    }
}

pub open spec fn param_view(p: BicepParameter) -> ParamView
    decreases p, 0int,
{
    ParamView {
        description: str_view(p.description),
        metadata: entries_view(p.metadata.entries@),
        ty: type_view(p.parameter_type),
        default_value: opt_value_view(p.default_value),
        discriminator: str_view(p.discriminator),
        allowed: opt_values_view(p.allowed_values),
        nullable: p.is_nullable,
        sealed: p.is_sealed,
        secure: p.is_secure,
        min_length: p.min_length,
        max_length: p.max_length,
        min_value: p.min_value,
        max_value: p.max_value,
    }
}

/// The view of `BicepParameter::default()`.
pub open spec fn param_view_default() -> ParamView {
    ParamView {
        description: None,
        metadata: Seq::empty(),
        ty: TypeView::Str,
        default_value: None,
        discriminator: None,
        allowed: None,
        nullable: false,
        sealed: false,
        secure: false,
        min_length: None,
        max_length: None,
        min_value: None,
        max_value: None,
    }
}

/// The views of an object type's properties.
pub open spec fn params_view(s: Seq<(String, BicepParameter)>) -> Seq<(Seq<char>, ParamView)> {
    Seq::new(s.len(), |i: int| (s[i].0@, param_view(s[i].1)))
}

pub proof fn lemma_type_view_object(t: BicepType)
    ensures
        t matches BicepType::Object(Some(m)) ==> type_view(t) == TypeView::Object(
            Some(params_view(m.entries@)),
        ),
{
    match t {
        BicepType::Object(Some(m)) => {
            let inner = type_view(t)->Object_0->Some_0;
            assert(inner.len() == m.entries@.len());
            assert forall|i: int| 0 <= i < m.entries@.len() implies inner[i] == params_view(
                m.entries@,
            )[i] by {}
            assert(inner =~= params_view(m.entries@));
        },
        _ => {},
    }
}

impl View for BicepType {
    type V = TypeView;

    open spec fn view(&self) -> TypeView {
        type_view(*self)
    }
}

impl View for BicepParameter {
    type V = ParamView;

    open spec fn view(&self) -> ParamView {
        param_view(*self)
    }
}

/// The content of a decorator.
pub struct DecoratorView {
    pub name: Seq<char>,
    pub argument: ValueView,
}

impl View for BicepDecorator {
    type V = DecoratorView;

    open spec fn view(&self) -> DecoratorView {
        DecoratorView { name: self.name@, argument: value_view(self.argument) }
    }
}

pub open spec fn decorators_view(s: Seq<BicepDecorator>) -> Seq<DecoratorView> {
    Seq::new(s.len(), |i: int| s[i]@)
}

pub proof fn lemma_decorators_view_push(s: Seq<BicepDecorator>, d: BicepDecorator)
    ensures
        decorators_view(s.push(d)) == decorators_view(s).push(d@),
{
    assert(decorators_view(s.push(d)) =~= decorators_view(s).push(d@));
}

// ---------------------------------------------------------------
// Copies
// ---------------------------------------------------------------

/// The value that a string stands for where values are read back from their
/// serialized form: `{reference:name}` is a reference to `name`, any other
/// text is a string.
pub open spec fn value_of_text(t: Seq<char>) -> ValueView {
    if spec_starts_with(t, "{reference:"@) && spec_ends_with(t, "}"@) && t.len() >= 12 {
        ValueView::Ident(t.subrange(11, t.len() - 1))
    } else {
        ValueView::Str(t)
    }
}

/// The value that a serialized string stands for (`value_of_text`).
pub fn value_from_text(value: &str) -> (r: BicepValue)
    ensures
        r@ == value_of_text(value@),
{
    let v = chars_of(value);
    let prefix = chars_of("{reference:");
    let suffix = chars_of("}");
    if starts_with(v.as_slice(), prefix.as_slice()) && ends_with(v.as_slice(), suffix.as_slice())
        && v.len() >= 12 {
        let id = slice_chars(v.as_slice(), 11, v.len() - 1);
        BicepValue::Identifier(string_of(id.as_slice()))
    } else {
        BicepValue::String(string_of(v.as_slice()))
    }
}

/// A copy of a value.
pub fn clone_value(v: &BicepValue) -> (r: BicepValue)
    ensures
        r@ == v@,
    decreases v, 1int,
{
    match v {
        BicepValue::Array(a) => {
            proof {
                assert(decreases_to!(*v => *a));
            }
            let items = clone_values(a);
            let r = BicepValue::Array(items);
            proof {
                lemma_value_view_parts(r);
                lemma_value_view_parts(*v);
            }
            r
        },
        BicepValue::String(s) => BicepValue::String(s.clone()),
        BicepValue::Int(n) => BicepValue::Int(*n),
        BicepValue::Bool(b) => BicepValue::Bool(*b),
        BicepValue::Object(m) => {
            proof {
                assert(decreases_to!(*v => *m));
            }
            let c = clone_value_map(m);
            let r = BicepValue::Object(c);
            proof {
                lemma_value_view_parts(r);
                lemma_value_view_parts(*v);
            }
            r
        },
        BicepValue::Identifier(s) => BicepValue::Identifier(s.clone()),
    }
}

/// A copy of a list of values.
pub fn clone_values(a: &Vec<BicepValue>) -> (r: Vec<BicepValue>)
    ensures
        values_view(r@) == values_view(a@),
    decreases a, 0int,
{
    let mut out: Vec<BicepValue> = Vec::new();
    let mut i: usize = 0;
    proof {
        assert(decreases_to!(*a => a@));
    }
    while i < a.len()
        invariant
            i <= a@.len(),
            decreases_to!(*a => a@),
            values_view(out@) == values_view(a@.subrange(0, i as int)),
        decreases a@.len() - i,
    {
        proof {
            assert(decreases_to!(a@ => a@[i as int]));
        }
        let c = clone_value(&a[i]);
        let ghost before = out@;
        out.push(c);
        i = i + 1;
        assert(values_view(before).len() == before.len());
        assert(out@.len() == i);
        assert forall|j: int| 0 <= j < i implies #[trigger] values_view(out@)[j] == values_view(
            a@.subrange(0, i as int),
        )[j] by {
            if j < i - 1 {
                assert(out@[j] == before[j]);
                assert(values_view(before)[j] == values_view(a@.subrange(0, i - 1))[j]);
                assert(a@.subrange(0, i - 1)[j] == a@[j]);
            } else {
                assert(out@[j] == c);
            }
        }
        assert(values_view(out@) =~= values_view(a@.subrange(0, i as int)));
    }
    assert(a@.subrange(0, a@.len() as int) =~= a@);
    out
}

/// A copy of a map of values.
pub fn clone_value_map(m: &OrderedMap<BicepValue>) -> (r: OrderedMap<BicepValue>)
    ensures
        entries_view(r@) == entries_view(m@),
    decreases m, 0int,
{
    let mut out: Vec<(String, BicepValue)> = Vec::new();
    let mut i: usize = 0;
    proof {
        assert(decreases_to!(*m => m.entries@));
    }
    while i < m.entries.len()
        invariant
            i <= m.entries@.len(),
            decreases_to!(*m => m.entries@),
            entries_view(out@) == entries_view(m.entries@.subrange(0, i as int)),
        decreases m.entries@.len() - i,
    {
        proof {
            assert(decreases_to!(m.entries@ => m.entries@[i as int]));
            assert(decreases_to!(m.entries@[i as int] => m.entries@[i as int].1));
        }
        let k = m.entries[i].0.clone();
        let c = clone_value(&m.entries[i].1);
        let ghost before = out@;
        out.push((k, c));
        i = i + 1;
        assert(entries_view(before).len() == before.len());
        assert(out@.len() == i);
        assert forall|j: int| 0 <= j < i implies #[trigger] entries_view(out@)[j]
            == entries_view(m.entries@.subrange(0, i as int))[j] by {
            if j < i - 1 {
                assert(out@[j] == before[j]);
                assert(entries_view(before)[j] == entries_view(m.entries@.subrange(0, i - 1))[j]);
                assert(m.entries@.subrange(0, i - 1)[j] == m.entries@[j]);
            } else {
                assert(out@[j] == (k, c));
            }
        }
        assert(entries_view(out@) =~= entries_view(m.entries@.subrange(0, i as int)));
    }
    assert(m.entries@.subrange(0, m.entries@.len() as int) =~= m.entries@);
    OrderedMap { entries: out }
}

// ---------------------------------------------------------------
// Display models
// ---------------------------------------------------------------

/// How a value is written in documentation (`Display` of the value).
pub open spec fn view_text(v: ValueView) -> Seq<char>
    decreases v, 1int,
{
    match v {
        ValueView::Str(s) => s,
        ValueView::Int(n) => spec_int_decimal(n as int),
        ValueView::Bool(b) => spec_bool_text(b),
        ValueView::Array(a) => "["@ + views_text(a) + "]"@,
        ValueView::Object(m) => if m.len() == 0 {
            "{}"@
        } else {
            "{ "@ + ventries_text(m) + " }"@
        },
        ValueView::Ident(id) => "${"@ + id + "}"@,
    }
}

/// The values of `s`, each as `view_text` writes it, separated by ", ".
pub open spec fn views_text(s: Seq<ValueView>) -> Seq<char>
    decreases s, 0int,
{
    if s.len() == 0 {
        Seq::empty()
    } else if s.len() == 1 {
        view_text(s[0])
    } else {
        views_text(s.subrange(0, s.len() - 1)) + ", "@ + view_text(s[s.len() - 1])
    }
}

/// The entries of an object as `key: value`, separated by ", ".
pub open spec fn ventries_text(s: Seq<(Seq<char>, ValueView)>) -> Seq<char>
    decreases s, 0int,
{
    if s.len() == 0 {
        Seq::empty()
    } else if s.len() == 1 {
        s[0].0 + ": "@ + view_text(s[0].1)
    } else {
        ventries_text(s.subrange(0, s.len() - 1)) + ", "@ + s[s.len() - 1].0 + ": "@ + view_text(
            s[s.len() - 1].1,
        )
    }
}

/// How a value is written in documentation.
pub open spec fn value_text(v: BicepValue) -> Seq<char> {
    view_text(value_view(v))
}

pub proof fn lemma_views_text_push(s: Seq<ValueView>, x: ValueView)
    ensures
        views_text(s.push(x)) == if s.len() == 0 {
            view_text(x)
        } else {
            views_text(s) + ", "@ + view_text(x)
        },
{
    assert(s.push(x).subrange(0, s.len() as int) =~= s);
}

pub proof fn lemma_ventries_text_push(s: Seq<(Seq<char>, ValueView)>, x: (Seq<char>, ValueView))
    ensures
        ventries_text(s.push(x)) == if s.len() == 0 {
            x.0 + ": "@ + view_text(x.1)
        } else {
            ventries_text(s) + ", "@ + x.0 + ": "@ + view_text(x.1)
        },
{
    assert(s.push(x).subrange(0, s.len() as int) =~= s);
}

/// How a type is written (`Display` of the type); union members are joined by `sep`.
pub open spec fn type_text_with(t: BicepType, sep: Seq<char>) -> Seq<char>
    decreases t,
{
    match t {
        BicepType::Array(inner) => type_text_with(*inner, sep) + "[]"@,
        BicepType::String => "string"@,
        BicepType::Int => "int"@,
        BicepType::Bool => "bool"@,
        BicepType::Object(_) => "object"@,
        BicepType::CustomType(n) => n@,
        BicepType::Union(vs) => spec_join(vs@.map_values(|s: String| s@), sep),
    }
}

/// How a type is written, with union members joined by " | ".
pub open spec fn type_text(t: BicepType) -> Seq<char> {
    type_text_with(t, " | "@)
}

// ---------------------------------------------------------------
// Executable display
// ---------------------------------------------------------------

/// Appends `value_text(v)` to `out`.
pub fn write_value(out: &mut Vec<char>, v: &BicepValue)
    ensures
        final(out)@ == old(out)@ + value_text(*v),
    decreases v,
{
    proof {
        reveal_strlit("[");
        reveal_strlit("]");
        reveal_strlit("{}");
        reveal_strlit("{ ");
        reveal_strlit(" }");
        reveal_strlit("${");
        reveal_strlit("}");
        reveal_strlit(", ");
        reveal_strlit(": ");
        lemma_value_view_parts(*v);
    }
    match v {
        BicepValue::String(s) => {
            append_str(out, s.as_str());
        },
        BicepValue::Int(n) => {
            let d = int_decimal(*n);
            append_chars(out, d.as_slice());
        },
        BicepValue::Bool(b) => {
            let d = bool_text(*b);
            append_chars(out, d.as_slice());
        },
        BicepValue::Array(a) => {
            let ghost start = out@;
            append_str(out, "[");
            let mut i: usize = 0;
            assert(decreases_to!(*v => a@));
            assert(values_view(a@.subrange(0, 0)) =~= Seq::<ValueView>::empty());
            while i < a.len()
                invariant
                    i <= a@.len(),
                    decreases_to!(*v => a@),
                    out@ == start + "["@ + views_text(values_view(a@.subrange(0, i as int))),
                decreases a@.len() - i,
            {
                let ghost pre = values_view(a@.subrange(0, i as int));
                assert(values_view(a@.subrange(0, i + 1)) =~= pre.push(value_view(a@[i as int])));
                proof {
                    lemma_views_text_push(pre, value_view(a@[i as int]));
                }
                if i > 0 {
                    append_str(out, ", ");
                }
                proof {
                    assert(decreases_to!(a@ => a@[i as int]));
                    assert(decreases_to!(*v => a@[i as int]));
                }
                write_value(out, &a[i]);
                i = i + 1;
                assert(out@ =~= start + "["@ + views_text(values_view(a@.subrange(0, i as int))));
            }
            assert(a@.subrange(0, a@.len() as int) =~= a@);
            append_str(out, "]");
        },
        BicepValue::Object(m) => {
            if m.entries.len() == 0 {
                assert(entries_view(m.entries@).len() == 0);
                append_str(out, "{}");
            } else {
                let ghost start = out@;
                append_str(out, "{ ");
                let mut i: usize = 0;
                assert(decreases_to!(*v => m.entries@));
                assert(entries_view(m.entries@.subrange(0, 0)) =~= Seq::<
                    (Seq<char>, ValueView),
                >::empty());
                while i < m.entries.len()
                    invariant
                        i <= m.entries@.len(),
                        decreases_to!(*v => m.entries@),
                        out@ == start + "{ "@ + ventries_text(
                            entries_view(m.entries@.subrange(0, i as int)),
                        ),
                    decreases m.entries@.len() - i,
                {
                    let ghost pre = entries_view(m.entries@.subrange(0, i as int));
                    let ghost e = (m.entries@[i as int].0@, value_view(m.entries@[i as int].1));
                    assert(entries_view(m.entries@.subrange(0, i + 1)) =~= pre.push(e));
                    proof {
                        lemma_ventries_text_push(pre, e);
                    }
                    if i > 0 {
                        append_str(out, ", ");
                    }
                    append_str(out, m.entries[i].0.as_str());
                    append_str(out, ": ");
                    proof {
                        assert(decreases_to!(m.entries@ => m.entries@[i as int]));
                        assert(decreases_to!(m.entries@[i as int] => m.entries@[i as int].1));
                        assert(decreases_to!(*v => m.entries@[i as int].1));
                    }
                    write_value(out, &m.entries[i].1);
                    i = i + 1;
                    assert(out@ =~= start + "{ "@ + ventries_text(
                        entries_view(m.entries@.subrange(0, i as int)),
                    ));
                }
                assert(m.entries@.subrange(0, m.entries@.len() as int) =~= m.entries@);
                append_str(out, " }");
            }
        },
        BicepValue::Identifier(id) => {
            append_str(out, "${");
            append_str(out, id.as_str());
            append_str(out, "}");
        },
    }
}

impl BicepValue {
    /// The value as documentation writes it (the `Display` text).
    pub fn to_display_string(&self) -> (r: String)
        ensures
            r@ == value_text(*self),
    {
        let mut out: Vec<char> = Vec::new();
        write_value(&mut out, self);
        assert(out@ =~= value_text(*self));
        string_of(out.as_slice())
    }
}

/// Appends `type_text_with(t, sep)` to `out`.
pub fn write_type_with(out: &mut Vec<char>, t: &BicepType, sep: &str)
    ensures
        final(out)@ == old(out)@ + type_text_with(*t, sep@),
    decreases t,
{
    match t {
        BicepType::Array(inner) => {
            write_type_with(out, inner, sep);
            append_str(out, "[]");
        },
        BicepType::String => append_str(out, "string"),
        BicepType::Int => append_str(out, "int"),
        BicepType::Bool => append_str(out, "bool"),
        BicepType::Object(_) => append_str(out, "object"),
        BicepType::CustomType(n) => append_str(out, n.as_str()),
        BicepType::Union(vs) => {
            let mut parts: Vec<Vec<char>> = Vec::new();
            let mut i: usize = 0;
            while i < vs.len()
                invariant
                    i <= vs@.len(),
                    parts@.map_values(|x: Vec<char>| x@) == vs@.map_values(|s: String| s@).subrange(
                        0,
                        i as int,
                    ),
                decreases vs@.len() - i,
            {
                let ghost old_parts = parts@;
                parts.push(chars_of(vs[i].as_str()));
                assert(parts@.map_values(|x: Vec<char>| x@) =~= old_parts.map_values(|x: Vec<char>| x@).push(vs@[i as int]@));
                i = i + 1;
                assert(parts@.map_values(|x: Vec<char>| x@) =~= vs@.map_values(|s: String| s@).subrange(
                    0,
                    i as int,
                ));
            }
            assert(vs@.map_values(|s: String| s@).subrange(0, vs@.len() as int) =~= vs@.map_values(
                |s: String| s@,
            ));
            let sv = chars_of(sep);
            let j = join(&parts, sv.as_slice());
            append_chars(out, j.as_slice());
        },
    }
}

impl BicepType {
    /// The type as documentation writes it (the `Display` text).
    pub fn to_display_string(&self) -> (r: String)
        ensures
            r@ == type_text(*self),
    {
        let mut out: Vec<char> = Vec::new();
        write_type_with(&mut out, self, " | ");
        assert(out@ =~= type_text(*self));
        string_of(out.as_slice())
    }
}

} // verus!
