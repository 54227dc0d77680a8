//! Variable declarations: `var name = value`, with description and export flag.
use vstd::prelude::*;

use super::decorators::{
    description_of, extract_description_from_decorators, is_named, named,
};
use super::syntax::SyntaxNode;
use super::values::{parse_value_node, value_model};
use super::{decorators_view, str_view, value_view, BicepDecorator, BicepParserError, BicepValue,
    DecoratorView, ValueView,
};

verus! {

/// A variable declaration.
#[derive(Debug)]
pub struct BicepVariable {
    /// Optional description from decorators
    pub description: Option<String>,
    /// The variable's value
    pub value: BicepValue,
    /// Whether the variable is exported (`@export()`)
    pub is_exported: bool,
}

/// The content of a `BicepVariable`.
pub struct VariableView {
    pub description: Option<Seq<char>>,
    pub value: ValueView,
    pub exported: bool,
}

impl View for BicepVariable {
    type V = VariableView;

    open spec fn view(&self) -> VariableView {
        VariableView {
            description: str_view(self.description),
            value: value_view(self.value),
            exported: self.is_exported,
        }
    }
}

/// Whether some decorator of `ds` is `@export`.
pub open spec fn has_named(ds: Seq<DecoratorView>, base: Seq<char>) -> bool {
    exists|i: int| 0 <= i < ds.len() && named(#[trigger] ds[i].name, base)
}

/// The variable a declaration describes: its name (the second child) and its
/// value (the fourth child; an empty string where that cannot be read).
/// `None` where the declaration has fewer than four children or no name.
pub open spec fn variable_model(n: SyntaxNode, ds: Seq<DecoratorView>) -> Option<
    (Seq<char>, VariableView),
> {
    if n.children@.len() < 4 || n.children@[1].text@.len() == 0 {
        None
    } else {
        Some(
            (
                n.children@[1].text@,
                VariableView {
                    description: description_of(ds),
                    value: match value_model(n.children@[3]) {
                        Some(v) => v,
                        None => ValueView::Str(Seq::empty()),
                    },
                    exported: has_named(ds, "export"@),
                },
            ),
        )
    }
}

/// Whether some decorator is named `base` or `sys.base`.
pub fn any_named(decorators: &[BicepDecorator], base: &str) -> (r: bool)
    ensures
        r == has_named(decorators_view(decorators@), base@),
{
    let ghost ds = decorators_view(decorators@);
    let mut i: usize = 0;
    while i < decorators.len()
        invariant
            i <= decorators@.len(),
            ds == decorators_view(decorators@),
            forall|j: int| 0 <= j < i ==> !named(#[trigger] ds[j].name, base@),
        decreases decorators@.len() - i,
    {
        assert(ds[i as int].name == decorators@[i as int].name@);
        if is_named(decorators[i].name.as_str(), base) {
            return true;
        }
        i = i + 1;
    }
    false
}

/// Marks the variable exported where a decorator is `export` or
/// `sys.export`; otherwise leaves the mark as it was.
fn process_variable_export_decorators(decorators: &[BicepDecorator], is_exported: &mut bool)
    ensures
        *final(is_exported) == (*old(is_exported) || has_named(
            decorators_view(decorators@),
            "export"@,
        )),
{
    if any_named(decorators, "export") {
        *is_exported = true;
    }
}

/// Parses a variable declaration.
pub fn parse_variable_declaration(node: &SyntaxNode, decorators: Vec<BicepDecorator>) -> (r: Result<
    (String, BicepVariable),
    BicepParserError,
>)
    ensures
        match variable_model(*node, decorators_view(decorators@)) {
            Some((name, v)) => r matches Ok((n, x)) && n@ == name && x@ == v,
            None => r matches Err(e) && e is ParseError,
        },
{
    let description = extract_description_from_decorators(decorators.as_slice());
    let mut is_exported = false;
    process_variable_export_decorators(decorators.as_slice(), &mut is_exported);
    if node.children.len() < 4 {
        return Err(
            BicepParserError::ParseError(
                "Variable declaration missing required elements".to_string(),
            ),
        );
    }
    let name = node.children[1].text.clone();
    if name.as_str().unicode_len() == 0 {
        return Err(BicepParserError::ParseError("Variable declaration missing name".to_string()));
    }
    let value = match parse_value_node(&node.children[3]) {
        Ok(Some(v)) => v,
        _ => BicepValue::String(String::new()),
    };
    Ok((name, BicepVariable { description, value, is_exported }))
}

} // verus!
