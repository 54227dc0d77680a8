//! A whole Bicep document: metadata, target scope and every declaration,
//! each with the decorators written just before it.
use vstd::prelude::*;

use super::decorators::{
    decorators_scan, decorators_shaped, description_of, extract_description_from_decorators,
    parse_decorators,
};
use super::functions::{function_model, parse_function_declaration, BicepFunction, FunctionView};
use super::imports::{
    module_import_model, namespace_import_model, parse_module_import,
    parse_namespace_import, BicepImport, ImportView,
};
use super::modules::{module_decl_model, module_decl_ok, parse_module_declaration, BicepModule, ModuleView};
use super::outputs::{output_model, parse_output_declaration, BicepOutput, OutputView};
use super::parameters::{parameter_model, parameter_shaped, parse_parameter_declaration};
use super::resources::{
    parse_resource_declaration, resource_declaration_ok, resource_loops_ok, resource_model,
    resources_view, loops_ok_from, BicepResource, ResourceView,
};
use super::syntax::{kind_is, SyntaxNode};
use super::type_utils::{
    lemma_types_ok_child, lone_quote, property_type_ok, quoted, strings_unquotable, type_node_ok,
    types_ok, types_ok_from,
};
use super::types::{parse_type_declaration, type_declaration_model, BicepCustomType, CustomTypeView};
use super::values::{
    first_kind_from, has_kind, items_scan, lemma_first_kind_from, object_scan, parse_array_items,
    parse_object_properties_for_value, parse_value_node, value_model,
};
use super::variables::{parse_variable_declaration, variable_model, BicepVariable, VariableView};
use super::{
    decorators_view, entries_view, lemma_value_view_parts, str_view, BicepDecorator,
    BicepParameter, BicepParserError, BicepType, BicepValue, DecoratorView, ParamView, TypeView,
    ValueView,
};
use crate::ordered_map::{drop_key, get_key, key_pos, kv_view, lemma_key_pos_some, put, OrderedMap};
use crate::text::{spec_parse_bool, spec_parse_i64, spec_trim};

verus! {

/// A parsed Bicep document.
#[derive(Debug)]
pub struct BicepDocument {
    /// Name of the template (from metadata `name`)
    pub name: Option<String>,
    /// Description of the template (from metadata `description`)
    pub description: Option<String>,
    /// Other template metadata
    pub metadata: OrderedMap<BicepValue>,
    /// Target deployment scope
    pub target_scope: Option<String>,
    /// Import statements
    pub imports: Vec<BicepImport>,
    /// Custom type definitions
    pub types: OrderedMap<BicepCustomType>,
    /// User-defined functions
    pub functions: OrderedMap<BicepFunction>,
    /// Template parameters
    pub parameters: OrderedMap<BicepParameter>,
    /// Template variables
    pub variables: OrderedMap<BicepVariable>,
    /// Resource declarations
    pub resources: OrderedMap<BicepResource>,
    /// Module declarations
    pub modules: OrderedMap<BicepModule>,
    /// Template outputs
    pub outputs: OrderedMap<BicepOutput>,
}

/// The content of a `BicepDocument`.
pub struct DocumentView {
    pub name: Option<Seq<char>>,
    pub description: Option<Seq<char>>,
    pub metadata: Seq<(Seq<char>, ValueView)>,
    pub target_scope: Option<Seq<char>>,
    pub imports: Seq<ImportView>,
    pub types: Seq<(Seq<char>, CustomTypeView)>,
    pub functions: Seq<(Seq<char>, FunctionView)>,
    pub parameters: Seq<(Seq<char>, ParamView)>,
    pub variables: Seq<(Seq<char>, VariableView)>,
    pub resources: Seq<(Seq<char>, ResourceView)>,
    pub modules: Seq<(Seq<char>, ModuleView)>,
    pub outputs: Seq<(Seq<char>, OutputView)>,
}

pub open spec fn imports_view(s: Seq<BicepImport>) -> Seq<ImportView> {
    Seq::new(s.len(), |i: int| s[i]@)
}

impl Default for BicepDocument {
    /// A document with no name, description, scope, metadata or declarations.
    fn default() -> (r: Self)
        ensures
            r.name is None,
            r.description is None,
            r.target_scope is None,
            r.metadata@.len() == 0,
            r.imports@.len() == 0,
            r.types@.len() == 0,
            r.functions@.len() == 0,
            r.parameters@.len() == 0,
            r.variables@.len() == 0,
            r.resources@.len() == 0,
            r.modules@.len() == 0,
            r.outputs@.len() == 0,
    {
        BicepDocument {
            name: None,
            description: None,
            metadata: OrderedMap::new(),
            target_scope: None,
            imports: Vec::new(),
            types: OrderedMap::new(),
            functions: OrderedMap::new(),
            parameters: OrderedMap::new(),
            variables: OrderedMap::new(),
            resources: OrderedMap::new(),
            modules: OrderedMap::new(),
            outputs: OrderedMap::new(),
        }
    }
}

impl View for BicepDocument {
    type V = DocumentView;

    open spec fn view(&self) -> DocumentView {
        DocumentView {
            name: str_view(self.name),
            description: str_view(self.description),
            metadata: kv_view(self.metadata@),
            target_scope: str_view(self.target_scope),
            imports: imports_view(self.imports@),
            types: kv_view(self.types@),
            functions: kv_view(self.functions@),
            parameters: kv_view(self.parameters@),
            variables: kv_view(self.variables@),
            resources: kv_view(self.resources@),
            modules: kv_view(self.modules@),
            outputs: kv_view(self.outputs@),
        }
    }
}

// ---------------------------------------------------------------
// Models
// ---------------------------------------------------------------

/// The decorators of the run of `decorators` nodes just before child `j`.
pub open spec fn run_decorators(cs: Seq<SyntaxNode>, j: int) -> Seq<DecoratorView>
    decreases j,
{
    if j >= 1 && j - 1 < cs.len() && kind_is(cs[j - 1], "decorators"@) {
        run_decorators(cs, j - 1) + decorators_scan(cs[j - 1], 0, Seq::empty())
    } else {
        Seq::empty()
    }
}

/// `t` without its surrounding quotes, where it has a pair of them.
pub open spec fn strip_pair(t: Seq<char>) -> Seq<char> {
    if t.len() >= 2 && ((t[0] == '\'' && t.last() == '\'') || (t[0] == '"' && t.last() == '"')) {
        t.subrange(1, t.len() - 1)
    } else {
        t
    }
}

/// A primitive metadata value; `None` where a number or boolean cannot be read.
pub open spec fn primitive_model(c: SyntaxNode) -> Option<ValueView> {
    if kind_is(c, "string"@) {
        match first_kind_from(c.children@, "string_content"@, 0) {
            Some(j) => if 0 <= j < c.children@.len() {
                Some(ValueView::Str(spec_trim(c.children@[j].text@)))
            } else {
                None
            },
            None => Some(ValueView::Str(strip_pair(spec_trim(c.text@)))),
        }
    } else if kind_is(c, "number"@) {
        match spec_parse_i64(spec_trim(c.text@)) {
            Some(n) => Some(ValueView::Int(n)),
            None => None,
        }
    } else {
        match spec_parse_bool(spec_trim(c.text@)) {
            Some(b) => Some(ValueView::Bool(b)),
            None => None,
        }
    }
}

/// The name and value of a metadata declaration, read from child `i` on.
pub open spec fn meta_scan(n: SyntaxNode, i: int, name: Seq<char>, value: Option<ValueView>) -> (
    Seq<char>,
    Option<ValueView>,
)
    decreases n.children@.len() - i,
{
    if i < 0 || i >= n.children@.len() {
        (name, value)
    } else {
        let c = n.children@[i];
        if kind_is(c, "identifier"@) {
            meta_scan(n, i + 1, spec_trim(c.text@), value)
        } else if kind_is(c, "string"@) || kind_is(c, "number"@) || kind_is(c, "boolean"@) {
            match primitive_model(c) {
                Some(v) => meta_scan(n, i + 1, name, Some(v)),
                None => meta_scan(n, i + 1, name, value),
            }
        } else if kind_is(c, "object"@) {
            match object_scan(c, 0, Seq::empty()) {
                Some(m) => meta_scan(n, i + 1, name, Some(ValueView::Object(m))),
                None => meta_scan(n, i + 1, name, value),
            }
        } else if kind_is(c, "array"@) {
            match items_scan(c, 0, Seq::empty()) {
                Some(items) => meta_scan(n, i + 1, name, Some(ValueView::Array(items))),
                None => meta_scan(n, i + 1, name, value),
            }
        } else if kind_is(c, "="@) || kind_is(c, "metadata"@) {
            meta_scan(n, i + 1, name, value)
        } else {
            match value_model(c) {
                Some(v) => meta_scan(n, i + 1, name, Some(v)),
                None => meta_scan(n, i + 1, name, value),
            }
        }
    }
}

/// The target scope of a `targetScope = '...'` assignment, unquoted.
pub open spec fn target_scope_model(n: SyntaxNode) -> Seq<char> {
    match first_kind_from(n.children@, "string"@, 0) {
        Some(j) => if 0 <= j < n.children@.len() {
            let t = spec_trim(n.children@[j].text@);
            if quoted(t) && t.len() >= 2 {
                t.subrange(1, t.len() - 1)
            } else {
                t
            }
        } else {
            Seq::empty()
        },
        None => Seq::empty(),
    }
}

/// Whether some decorator is named exactly `name`.
pub open spec fn has_exact(ds: Seq<DecoratorView>, name: Seq<char>) -> bool {
    exists|i: int| 0 <= i < ds.len() && #[trigger] ds[i].name == name
}

/// A custom type with its decorators applied: description, secure and export
/// flags, and a custom name that is a primitive read as that primitive.
pub open spec fn decorated_type(t: CustomTypeView, ds: Seq<DecoratorView>) -> CustomTypeView {
    CustomTypeView {
        description: if t.description is None {
            description_of(ds)
        } else {
            t.description
        },
        secure: has_exact(ds, "secure"@),
        exported: has_exact(ds, "export"@),
        definition: match t.definition {
            TypeView::Custom(n) => if n == "string"@ {
                TypeView::Str
            } else if n == "int"@ {
                TypeView::Int
            } else if n == "boolean"@ {
                TypeView::Bool
            } else if n == "object"@ {
                TypeView::Object(None)
            } else {
                t.definition
            },
            _ => t.definition,
        },
    }
}

/// The entries after storing each pair of `list` in order.
pub open spec fn put_all<W>(m: Seq<(Seq<char>, W)>, list: Seq<(Seq<char>, W)>) -> Seq<
    (Seq<char>, W),
>
    decreases list.len(),
{
    if list.len() == 0 {
        m
    } else {
        put(put_all(m, list.drop_last()), list.last().0, list.last().1)
    }
}

/// The document read so far.
pub struct DocScan {
    pub metadata: Seq<(Seq<char>, ValueView)>,
    pub target_scope: Option<Seq<char>>,
    pub imports: Seq<ImportView>,
    pub types: Seq<(Seq<char>, CustomTypeView)>,
    pub functions: Seq<(Seq<char>, FunctionView)>,
    pub parameters: Seq<(Seq<char>, ParamView)>,
    pub variables: Seq<(Seq<char>, VariableView)>,
    pub resources: Seq<(Seq<char>, ResourceView)>,
    pub modules: Seq<(Seq<char>, ModuleView)>,
    pub outputs: Seq<(Seq<char>, OutputView)>,
}

pub open spec fn doc_start() -> DocScan {
    DocScan {
        metadata: Seq::empty(),
        target_scope: None,
        imports: Seq::empty(),
        types: Seq::empty(),
        functions: Seq::empty(),
        parameters: Seq::empty(),
        variables: Seq::empty(),
        resources: Seq::empty(),
        modules: Seq::empty(),
        outputs: Seq::empty(),
    }
}

/// The effect of the `i`-th top-level node; a declaration that fails to parse
/// is left out.
pub open spec fn doc_step(st: DocScan, cs: Seq<SyntaxNode>, i: int) -> DocScan {
    let c = cs[i];
    let ds = run_decorators(cs, i);
    if kind_is(c, "metadata_declaration"@) {
        let (k, v) = meta_scan(c, 0, Seq::empty(), None);
        if k.len() > 0 && v is Some {
            DocScan { metadata: put(st.metadata, k, v->Some_0), ..st }
        } else {
            st
        }
    } else if kind_is(c, "target_scope_assignment"@) {
        let t = target_scope_model(c);
        if t.len() > 0 {
            DocScan { target_scope: Some(t), ..st }
        } else {
            st
        }
    } else if kind_is(c, "type_declaration"@) {
        match type_declaration_model(c) {
            Some((n, t)) => DocScan { types: put(st.types, n, decorated_type(t, ds)), ..st },
            None => st,
        }
    } else if kind_is(c, "parameter_declaration"@) {
        match parameter_model(c, ds) {
            Some((n, p)) => DocScan { parameters: put(st.parameters, n, p), ..st },
            None => st,
        }
    } else if kind_is(c, "variable_declaration"@) {
        match variable_model(c, ds) {
            Some((n, v)) => DocScan { variables: put(st.variables, n, v), ..st },
            None => st,
        }
    } else if kind_is(c, "user_defined_function"@) || kind_is(c, "function_declaration"@) {
        match function_model(c, ds) {
            Some((n, f)) => DocScan { functions: put(st.functions, n, f), ..st },
            None => st,
        }
    } else if kind_is(c, "resource_declaration"@) {
        DocScan { resources: put_all(st.resources, resource_model(c, ds)), ..st }
    } else if kind_is(c, "module_declaration"@) {
        match module_decl_model(c, ds) {
            Ok(m) => DocScan { modules: put(st.modules, m.name, m), ..st },
            Err(_) => st,
        }
    } else if kind_is(c, "import_statement"@) {
        match namespace_import_model(c) {
            Some(x) => DocScan { imports: st.imports.push(x), ..st },
            None => st,
        }
    } else if kind_is(c, "import_functionality"@) {
        match module_import_model(c) {
            Some(x) => DocScan { imports: st.imports.push(x), ..st },
            None => st,
        }
    } else if kind_is(c, "output_declaration"@) {
        match output_model(c, ds) {
            Some((n, o)) => DocScan { outputs: put(st.outputs, n, o), ..st },
            None => st,
        }
    } else {
        st
    }
}

pub open spec fn doc_scan(cs: Seq<SyntaxNode>, i: int, st: DocScan) -> DocScan
    decreases cs.len() - i,
{
    if i < 0 || i >= cs.len() {
        st
    } else {
        doc_scan(cs, i + 1, doc_step(st, cs, i))
    }
}

/// The string stored in metadata under `k`, if it is a string.
pub open spec fn meta_string(m: Seq<(Seq<char>, ValueView)>, k: Seq<char>) -> Option<Seq<char>> {
    match get_key(m, k) {
        Some(ValueView::Str(s)) => Some(s),
        _ => None,
    }
}

/// The document a syntax tree describes. Its name and description come from
/// the `name` and `description` metadata, which the remaining metadata does
/// not repeat.
pub open spec fn document_model(root: SyntaxNode) -> DocumentView {
    let st = doc_scan(root.children@, 0, doc_start());
    DocumentView {
        name: meta_string(st.metadata, "name"@),
        description: meta_string(st.metadata, "description"@),
        metadata: drop_key(drop_key(st.metadata, "name"@), "description"@),
        target_scope: st.target_scope,
        imports: st.imports,
        types: st.types,
        functions: st.functions,
        parameters: st.parameters,
        variables: st.variables,
        resources: st.resources,
        modules: st.modules,
        outputs: st.outputs,
    }
}

/// A top-level declaration can be parsed: a parameter has its name and a
/// type that can be read, a module's sources and loops can be read, and a
/// function's return type can be read.
pub open spec fn declaration_ok(c: SyntaxNode) -> bool {
    &&& kind_is(c, "parameter_declaration"@) ==> parameter_shaped(c) && type_node_ok(
        c.children@[2],
    )
    &&& kind_is(c, "module_declaration"@) ==> module_decl_ok(c)
    &&& (kind_is(c, "user_defined_function"@) || kind_is(c, "function_declaration"@))
        && c.children@.len() >= 6 ==> property_type_ok(c.children@[3])
}

/// A syntax tree the document parser can read: its decorators are shaped, its
/// quoted texts can be unquoted, its loops have iterators, and its top-level
/// declarations can be parsed.
pub open spec fn document_ok(root: SyntaxNode) -> bool {
    &&& types_ok(root)
    &&& resource_loops_ok(root)
    &&& forall|i: int| 0 <= i < root.children@.len() ==> declaration_ok(#[trigger] root.children@[i])
}

// ---------------------------------------------------------------
// Executable
// ---------------------------------------------------------------

fn trimmed(n: &SyntaxNode) -> (r: Vec<char>)
    ensures
        r@ == spec_trim(n.text@),
{
    let v = crate::text::chars_of(n.text.as_str());
    crate::text::trim(v.as_slice())
}

/// A primitive metadata value (string, number or boolean).
fn get_primitive_value(c: &SyntaxNode) -> (r: Option<BicepValue>)
    ensures
        super::opt_value_view(r) == primitive_model(*c),
{
    if has_kind(c, "string") {
        match super::values::first_child_of_kind(c, "string_content") {
            Some(j) => {
                proof {
                    lemma_first_kind_from(c.children@, "string_content"@, 0);
                }
                Some(BicepValue::String(crate::text::string_of(trimmed(&c.children[j]).as_slice())))
            },
            None => {
                let t = trimmed(c);
                let n = t.len();
                if n >= 2 && ((t[0] == '\'' && t[n - 1] == '\'') || (t[0] == '"' && t[n - 1] == '"')) {
                    Some(BicepValue::String(crate::text::string_of(crate::text::slice_chars(t.as_slice(), 1, n - 1).as_slice())))
                } else {
                    Some(BicepValue::String(crate::text::string_of(t.as_slice())))
                }
            },
        }
    } else if has_kind(c, "number") {
        let t = trimmed(c);
        match crate::text::parse_i64(t.as_slice()) {
            Some(k) => Some(BicepValue::Int(k)),
            None => None,
        }
    } else {
        let t = trimmed(c);
        match crate::text::parse_bool(t.as_slice()) {
            Some(b) => Some(BicepValue::Bool(b)),
            None => None,
        }
    }
}

/// The name and value of a metadata declaration.
fn parse_metadata(node: &SyntaxNode) -> (r: (Vec<char>, Option<BicepValue>))
    ensures
        (r.0@, super::opt_value_view(r.1)) == meta_scan(*node, 0, Seq::empty(), None),
{
    let mut name: Vec<char> = Vec::new();
    let mut value: Option<BicepValue> = None;
    let mut i: usize = 0;
    while i < node.children.len()
        invariant
            i <= node.children@.len(),
            meta_scan(*node, 0, Seq::empty(), None) == meta_scan(
                *node,
                i as int,
                name@,
                super::opt_value_view(value),
            ),
        decreases node.children@.len() - i,
    {
        let c = &node.children[i];
        if has_kind(c, "identifier") {
            name = trimmed(c);
        } else if has_kind(c, "string") || has_kind(c, "number") || has_kind(c, "boolean") {
            match get_primitive_value(c) {
                Some(v) => {
                    value = Some(v);
                },
                None => {},
            }
        } else if has_kind(c, "object") {
            match parse_object_properties_for_value(c) {
                Ok(m) => {
                    let v = BicepValue::Object(m);
                    proof {
                        lemma_value_view_parts(v);
                    }
                    value = Some(v);
                },
                Err(_) => {},
            }
        } else if has_kind(c, "array") {
            match parse_array_items(c) {
                Ok(items) => {
                    let v = BicepValue::Array(items);
                    proof {
                        lemma_value_view_parts(v);
                    }
                    value = Some(v);
                },
                Err(_) => {},
            }
        } else if has_kind(c, "=") || has_kind(c, "metadata") {
        } else {
            match parse_value_node(c) {
                Ok(Some(v)) => {
                    value = Some(v);
                },
                _ => {},
            }
        }
        i = i + 1;
    }
    (name, value)
}

/// The target scope of an assignment, unquoted.
fn extract_target_scope(node: &SyntaxNode) -> (r: Vec<char>)
    requires
        strings_unquotable(*node),
    ensures
        r@ == target_scope_model(*node),
{
    match super::values::first_child_of_kind(node, "string") {
        Some(j) => {
            proof {
                lemma_first_kind_from(node.children@, "string"@, 0);
            }
            let t = trimmed(&node.children[j]);
            assert(!lone_quote(t@));
            let n = t.len();
            if n >= 1 && ((t[0] == '\'' && t[n - 1] == '\'') || (t[0] == '"' && t[n - 1] == '"')) && n >= 2 {
                crate::text::slice_chars(t.as_slice(), 1, n - 1)
            } else {
                t
            }
        },
        None => Vec::new(),
    }
}

/// The decorators of the run of `decorators` nodes just before child `j`.
fn parse_decorators_from_node_list(cs: &Vec<SyntaxNode>, j: usize) -> (r: Vec<BicepDecorator>)
    requires
        j <= cs@.len(),
        forall|i: int| 0 <= i < cs@.len() ==> decorators_shaped(#[trigger] cs@[i]),
    ensures
        decorators_view(r@) == run_decorators(cs@, j as int),
{
    let mut k: usize = j;
    while k > 0 && has_kind(&cs[k - 1], "decorators")
        invariant
            k <= j <= cs@.len(),
            run_decorators(cs@, j as int) == run_decorators(cs@, k as int) + run_from(cs@, k as int, j as int),
        decreases k,
    {
        proof {
            lemma_run_from_prepend(cs@, k - 1, j as int);
        }
        k = k - 1;
    }
    let mut out: Vec<BicepDecorator> = Vec::new();
    assert(decorators_view(out@) =~= Seq::empty());
    assert(run_decorators(cs@, k as int) =~= Seq::empty());
    let mut m: usize = k;
    while m < j
        invariant
            k <= m <= j <= cs@.len(),
            forall|i: int| 0 <= i < cs@.len() ==> decorators_shaped(#[trigger] cs@[i]),
            run_decorators(cs@, j as int) == decorators_view(out@) + run_from(cs@, m as int, j as int),
        decreases j - m,
    {
        let ds = match parse_decorators(&cs[m]) {
            Ok(v) => v,
            Err(_) => Vec::new(),
        };
        let ghost before = out@;
        let mut q: usize = 0;
        while q < ds.len()
            invariant
                q <= ds@.len(),
                decorators_view(out@) == decorators_view(before) + decorators_view(ds@.subrange(0, q as int)),
            decreases ds@.len() - q,
        {
            let d = super::decorators::clone_decorator(&ds[q]);
            let ghost pv = out@;
            proof {
                super::lemma_decorators_view_push(pv, d);
                super::lemma_decorators_view_push(ds@.subrange(0, q as int), ds@[q as int]);
                assert(ds@.subrange(0, q + 1) =~= ds@.subrange(0, q as int).push(ds@[q as int]));
            }
            out.push(d);
            q = q + 1;
            assert(decorators_view(out@) =~= decorators_view(before) + decorators_view(ds@.subrange(0, q as int)));
        }
        assert(ds@.subrange(0, ds@.len() as int) =~= ds@);
        proof {
            lemma_run_from_first(cs@, m as int, j as int);
        }
        m = m + 1;
        assert(decorators_view(out@) + run_from(cs@, m as int, j as int) =~= decorators_view(before)
            + decorators_scan(cs@[m - 1], 0, Seq::empty()) + run_from(cs@, m as int, j as int));
    }
    assert(run_from(cs@, j as int, j as int) =~= Seq::empty());
    assert(decorators_view(out@) =~= decorators_view(out@) + run_from(cs@, j as int, j as int));
    out
}

/// The decorators of the `decorators` nodes `cs[k..j]` (all of that kind).
pub open spec fn run_from(cs: Seq<SyntaxNode>, k: int, j: int) -> Seq<DecoratorView>
    decreases j - k,
{
    if k >= j || k < 0 || j > cs.len() {
        Seq::empty()
    } else {
        run_from(cs, k, j - 1) + decorators_scan(cs[j - 1], 0, Seq::empty())
    }
}

proof fn lemma_run_from_prepend(cs: Seq<SyntaxNode>, k: int, j: int)
    requires
        0 <= k < j <= cs.len(),
        kind_is(cs[k], "decorators"@),
    ensures
        run_decorators(cs, k + 1) + run_from(cs, k + 1, j) == run_decorators(cs, k) + run_from(cs, k, j),
    decreases j - k,
{
    if k + 1 < j {
        lemma_run_from_prepend(cs, k, j - 1);
        assert(run_decorators(cs, k + 1) + run_from(cs, k + 1, j) =~= run_decorators(cs, k + 1) + run_from(cs, k + 1, j - 1)
            + decorators_scan(cs[j - 1], 0, Seq::empty()));
        assert(run_decorators(cs, k) + run_from(cs, k, j) =~= run_decorators(cs, k) + run_from(cs, k, j - 1)
            + decorators_scan(cs[j - 1], 0, Seq::empty()));
    } else {
        assert(run_from(cs, k + 1, j) =~= Seq::empty());
        assert(run_from(cs, k, j) =~= run_from(cs, k, k) + decorators_scan(cs[k], 0, Seq::empty()));
        assert(run_from(cs, k, k) =~= Seq::empty());
    }
}

proof fn lemma_run_from_first(cs: Seq<SyntaxNode>, m: int, j: int)
    requires
        0 <= m < j <= cs.len(),
    ensures
        run_from(cs, m, j) == decorators_scan(cs[m], 0, Seq::empty()) + run_from(cs, m + 1, j),
    decreases j - m,
{
    if m + 1 < j {
        lemma_run_from_first(cs, m, j - 1);
        assert(run_from(cs, m, j) =~= decorators_scan(cs[m], 0, Seq::empty()) + run_from(cs, m + 1, j));
    } else {
        assert(run_from(cs, m + 1, j) =~= Seq::empty());
        assert(run_from(cs, m, m) =~= Seq::empty());
        assert(run_from(cs, m, j) =~= decorators_scan(cs[m], 0, Seq::empty()));
    }
}

proof fn lemma_loops_ok_child(n: SyntaxNode, i: int, j: int)
    requires
        loops_ok_from(n, i),
        0 <= i <= j < n.children@.len(),
    ensures
        resource_loops_ok(n.children@[j]),
    decreases j - i,
{
    if i < j {
        lemma_loops_ok_child(n, i + 1, j);
    }
}

/// Whether some decorator is named exactly `name`.
fn any_exact(ds: &Vec<BicepDecorator>, name: &str) -> (r: bool)
    ensures
        r == has_exact(decorators_view(ds@), name@),
{
    let ghost dv = decorators_view(ds@);
    let mut i: usize = 0;
    while i < ds.len()
        invariant
            i <= ds@.len(),
            dv == decorators_view(ds@),
            forall|j: int| 0 <= j < i ==> #[trigger] dv[j].name != name@,
        decreases ds@.len() - i,
    {
        assert(dv[i as int].name == ds@[i as int].name@);
        if crate::text::str_eq(ds[i].name.as_str(), name) {
            return true;
        }
        i = i + 1;
    }
    false
}

/// `decorated_type` on a custom type.
fn decorate_type(t: &mut BicepCustomType, ds: &Vec<BicepDecorator>)
    ensures
        final(t)@ == decorated_type(old(t)@, decorators_view(ds@)),
{
    if t.description.is_none() {
        t.description = extract_description_from_decorators(ds.as_slice());
    }
    t.is_secure = any_exact(ds, "secure");
    t.is_exported = any_exact(ds, "export");
    let fixed = match &t.definition {
        BicepType::CustomType(n) => {
            if crate::text::str_eq(n.as_str(), "string") {
                Some(BicepType::String)
            } else if crate::text::str_eq(n.as_str(), "int") {
                Some(BicepType::Int)
            } else if crate::text::str_eq(n.as_str(), "boolean") {
                Some(BicepType::Bool)
            } else if crate::text::str_eq(n.as_str(), "object") {
                Some(BicepType::Object(None))
            } else {
                None
            }
        },
        _ => None,
    };
    match fixed {
        Some(f) => {
            t.definition = f;
        },
        None => {},
    }
}

/// Parses a document's syntax tree (`parse_bicep_document`): metadata, target
/// scope, imports and every declaration, each with the decorators written just
/// before it; a declaration that fails to parse is left out.
pub fn parse_bicep_document(root: &SyntaxNode) -> (r: Result<BicepDocument, BicepParserError>)
    requires
        document_ok(*root),
    ensures
        r matches Ok(d) && d@ == document_model(*root),
{
    let cs = &root.children;
    proof {
        assert forall|i: int| 0 <= i < cs@.len() implies decorators_shaped(#[trigger] cs@[i]) by {
            lemma_types_ok_child(*root, 0, i);
        }
    }
    let mut metadata: OrderedMap<BicepValue> = OrderedMap::new();
    let mut target_scope: Option<String> = None;
    let mut imports: Vec<BicepImport> = Vec::new();
    let mut types: OrderedMap<BicepCustomType> = OrderedMap::new();
    let mut functions: OrderedMap<BicepFunction> = OrderedMap::new();
    let mut parameters: OrderedMap<BicepParameter> = OrderedMap::new();
    let mut variables: OrderedMap<BicepVariable> = OrderedMap::new();
    let mut resources: OrderedMap<BicepResource> = OrderedMap::new();
    let mut modules: OrderedMap<BicepModule> = OrderedMap::new();
    let mut outputs: OrderedMap<BicepOutput> = OrderedMap::new();
    assert(kv_view(metadata@) =~= Seq::empty());
    assert(imports_view(imports@) =~= Seq::empty());
    assert(kv_view(types@) =~= Seq::empty());
    assert(kv_view(functions@) =~= Seq::empty());
    assert(kv_view(parameters@) =~= Seq::empty());
    assert(kv_view(variables@) =~= Seq::empty());
    assert(kv_view(resources@) =~= Seq::empty());
    assert(kv_view(modules@) =~= Seq::empty());
    assert(kv_view(outputs@) =~= Seq::empty());
    let mut i: usize = 0;
    while i < cs.len()
        invariant
            i <= cs@.len(),
            *cs == root.children,
            document_ok(*root),
            forall|i: int| 0 <= i < cs@.len() ==> decorators_shaped(#[trigger] cs@[i]),
            doc_scan(cs@, 0, doc_start()) == doc_scan(
                cs@,
                i as int,
                DocScan {
                    metadata: kv_view(metadata@),
                    target_scope: str_view(target_scope),
                    imports: imports_view(imports@),
                    types: kv_view(types@),
                    functions: kv_view(functions@),
                    parameters: kv_view(parameters@),
                    variables: kv_view(variables@),
                    resources: kv_view(resources@),
                    modules: kv_view(modules@),
                    outputs: kv_view(outputs@),
                },
            ),
        decreases cs@.len() - i,
    {
        let c = &cs[i];
        proof {
            lemma_types_ok_child(*root, 0, i as int);
            lemma_loops_ok_child(*root, 0, i as int);
            assert(declaration_ok(cs@[i as int]));
        }
        if has_kind(c, "metadata_declaration") {
            let (k, v) = parse_metadata(c);
            if k.len() > 0 {
                match v {
                    Some(val) => {
                        let ks = crate::text::string_of(k.as_slice());
                        proof {
                            crate::ordered_map::lemma_kv_view_insert(metadata@, ks, val);
                        }
                        metadata.insert(ks, val);
                    },
                    None => {},
                }
            }
        } else if has_kind(c, "target_scope_assignment") {
            let t = extract_target_scope(c);
            if t.len() > 0 {
                target_scope = Some(crate::text::string_of(t.as_slice()));
            }
        } else if has_kind(c, "type_declaration") {
            let ds = parse_decorators_from_node_list(cs, i);
            match parse_type_declaration(c) {
                Ok((name, ct)) => {
                    let mut ct = ct;
                    decorate_type(&mut ct, &ds);
                    proof {
                        crate::ordered_map::lemma_kv_view_insert(types@, name, ct);
                    }
                    types.insert(name, ct);
                },
                Err(_) => {},
            }
        } else if has_kind(c, "parameter_declaration") {
            let ds = parse_decorators_from_node_list(cs, i);
            match parse_parameter_declaration(c, ds) {
                Ok((name, p)) => {
                    proof {
                        crate::ordered_map::lemma_kv_view_insert(parameters@, name, p);
                    }
                    parameters.insert(name, p);
                },
                Err(_) => {},
            }
        } else if has_kind(c, "variable_declaration") {
            let ds = parse_decorators_from_node_list(cs, i);
            match parse_variable_declaration(c, ds) {
                Ok((name, v)) => {
                    proof {
                        crate::ordered_map::lemma_kv_view_insert(variables@, name, v);
                    }
                    variables.insert(name, v);
                },
                Err(_) => {},
            }
        } else if has_kind(c, "user_defined_function") || has_kind(c, "function_declaration") {
            let ds = parse_decorators_from_node_list(cs, i);
            match parse_function_declaration(c, ds) {
                Ok((name, f)) => {
                    proof {
                        crate::ordered_map::lemma_kv_view_insert(functions@, name, f);
                    }
                    functions.insert(name, f);
                },
                Err(_) => {},
            }
        } else if has_kind(c, "resource_declaration") {
            let ds = parse_decorators_from_node_list(cs, i);
            let ghost dv = decorators_view(ds@);
            let mut list = match parse_resource_declaration(c, ds) {
                Ok(v) => v,
                Err(_) => Vec::new(),
            };
            let ghost lv = resources_view(list@);
            assert(lv == resource_model(cs@[i as int], dv));
            let ghost m0 = kv_view(resources@);
            let ghost total = lv.len();
            let tl = list.len();
            let mut k: usize = 0;
            assert(put_all(m0, lv.subrange(0, 0)) == m0) by {
                assert(lv.subrange(0, 0) =~= Seq::<(Seq<char>, ResourceView)>::empty());
            }
            while list.len() > 0
                invariant
                    k + list@.len() == total,
                    total == lv.len(),
                    total <= usize::MAX,
                    resources_view(list@) == lv.subrange(k as int, total as int),
                    kv_view(resources@) == put_all(m0, lv.subrange(0, k as int)),
                decreases list@.len(),
            {
                let ghost old_list = list@;
                let (name, r) = list.remove(0);
                assert((name@, r@) == lv[k as int]) by {
                    assert(resources_view(old_list)[0] == (name@, r@));
                    assert(lv.subrange(k as int, total as int)[0] == lv[k as int]);
                }
                assert forall|j: int| 0 <= j < list@.len() implies #[trigger] resources_view(list@)[j]
                    == lv[k + 1 + j] by {
                    assert(list@[j] == old_list[j + 1]);
                    assert(resources_view(old_list)[j + 1] == lv.subrange(k as int, total as int)[j
                        + 1]);
                }
                proof {
                    crate::ordered_map::lemma_kv_view_insert(resources@, name, r);
                    assert(lv.subrange(0, k + 1).drop_last() =~= lv.subrange(0, k as int));
                }
                resources.insert(name, r);
                k = k + 1;
                assert(resources_view(list@) =~= lv.subrange(k as int, total as int));
            }
            assert(lv.subrange(0, k as int) =~= lv);
        } else if has_kind(c, "module_declaration") {
            let ds = parse_decorators_from_node_list(cs, i);
            match parse_module_declaration(c, ds) {
                Ok(m) => {
                    let name = m.name.clone();
                    proof {
                        crate::ordered_map::lemma_kv_view_insert(modules@, name, m);
                    }
                    modules.insert(name, m);
                },
                Err(_) => {},
            }
        } else if has_kind(c, "import_statement") {
            match parse_namespace_import(c) {
                Ok(x) => {
                    let ghost before = imports@;
                    imports.push(x);
                    assert(imports_view(imports@) =~= imports_view(before).push(x@));
                },
                Err(_) => {},
            }
        } else if has_kind(c, "import_functionality") {
            match parse_module_import(c) {
                Ok(x) => {
                    let ghost before = imports@;
                    imports.push(x);
                    assert(imports_view(imports@) =~= imports_view(before).push(x@));
                },
                Err(_) => {},
            }
        } else if has_kind(c, "output_declaration") {
            let ds = parse_decorators_from_node_list(cs, i);
            match parse_output_declaration(c, ds) {
                Ok((name, o)) => {
                    proof {
                        crate::ordered_map::lemma_kv_view_insert(outputs@, name, o);
                    }
                    outputs.insert(name, o);
                },
                Err(_) => {},
            }
        }
        i = i + 1;
    }
    proof {
        crate::ordered_map::lemma_kv_view_lookup(metadata@, "name"@);
        crate::ordered_map::lemma_kv_view_lookup(metadata@, "description"@);
    }
    let name = match metadata.get("name") {
        Some(BicepValue::String(n)) => Some(n.clone()),
        _ => None,
    };
    let description = match metadata.get("description") {
        Some(BicepValue::String(d)) => Some(d.clone()),
        _ => None,
    };
    proof {
        crate::ordered_map::lemma_kv_view_remove(metadata@, "name"@);
    }
    metadata.shift_remove("name");
    proof {
        crate::ordered_map::lemma_kv_view_remove(metadata@, "description"@);
    }
    metadata.shift_remove("description");
    Ok(
        BicepDocument {
            name,
            description,
            metadata,
            target_scope,
            imports,
            types,
            functions,
            parameters,
            variables,
            resources,
            modules,
            outputs,
        },
    )
}

/// No key occurs twice among the entries.
pub open spec fn keys_distinct<W>(s: Seq<(Seq<char>, W)>) -> bool {
    forall|i: int, j: int| 0 <= i < j < s.len() ==> s[i].0 != s[j].0
}

proof fn lemma_put_keeps_keys_distinct<W>(s: Seq<(Seq<char>, W)>, k: Seq<char>, v: W)
    requires
        keys_distinct(s),
    ensures
        keys_distinct(put(s, k, v)),
{
    lemma_key_pos_some(s, k);
    let t = put(s, k, v);
    assert forall|i: int, j: int| 0 <= i < j < t.len() implies t[i].0 != t[j].0 by {
        match key_pos(s, k) {
            Some(p) => {
                assert(t[i].0 == s[i].0);
                assert(t[j].0 == s[j].0);
            },
            None => {
                if j < s.len() {
                    assert(t[i] == s[i] && t[j] == s[j]);
                }
            },
        }
    }
}

proof fn lemma_scan_keeps_keys_distinct(cs: Seq<SyntaxNode>, i: int, st: DocScan)
    requires
        keys_distinct(st.metadata),
    ensures
        keys_distinct(doc_scan(cs, i, st).metadata),
    decreases cs.len() - i,
{
    if 0 <= i < cs.len() {
        let c = cs[i];
        if kind_is(c, "metadata_declaration"@) {
            let (k, v) = meta_scan(c, 0, Seq::empty(), None);
            if k.len() > 0 && v is Some {
                lemma_put_keeps_keys_distinct(st.metadata, k, v->Some_0);
            }
        }
        lemma_scan_keeps_keys_distinct(cs, i + 1, doc_step(st, cs, i));
    }
}

/// Dropping a key of entries without repeated keys leaves no entry under it,
/// and leaves a key that was absent absent.
proof fn lemma_drop_key_absent<W>(s: Seq<(Seq<char>, W)>, k: Seq<char>, k2: Seq<char>)
    requires
        keys_distinct(s),
        k2 == k || key_pos(s, k2) is None,
    ensures
        key_pos(drop_key(s, k), k2) is None,
        keys_distinct(drop_key(s, k)),
{
    lemma_key_pos_some(s, k);
    lemma_key_pos_some(s, k2);
    let t = drop_key(s, k);
    lemma_key_pos_some(t, k2);
    match key_pos(s, k) {
        Some(p) => {
            assert forall|j: int| 0 <= j < t.len() implies t[j].0 != k2 by {
                if j < p {
                    assert(t[j] == s[j]);
                } else {
                    assert(t[j] == s[j + 1]);
                }
            }
            assert forall|i: int, j: int| 0 <= i < j < t.len() implies t[i].0 != t[j].0 by {
                let i2 = if i < p { i } else { i + 1 };
                let j2 = if j < p { j } else { j + 1 };
                assert(t[i] == s[i2] && t[j] == s[j2]);
            }
        },
        None => {},
    }
}

/// The metadata of a document never holds `name` or `description`: those
/// are read as the document's name and description instead.
pub proof fn law_metadata_leaves_out_name_and_description(root: SyntaxNode)
    ensures
        get_key(document_model(root).metadata, "name"@) is None,
        get_key(document_model(root).metadata, "description"@) is None,
{
    let st = doc_scan(root.children@, 0, doc_start());
    lemma_scan_keeps_keys_distinct(root.children@, 0, doc_start());
    let m1 = drop_key(st.metadata, "name"@);
    lemma_drop_key_absent(st.metadata, "name"@, "name"@);
    lemma_drop_key_absent(m1, "description"@, "description"@);
    lemma_drop_key_absent(m1, "description"@, "name"@);
}

} // verus!