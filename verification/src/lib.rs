//! Documentation generator for Azure Bicep templates: parses a Bicep file into
//! a document model and writes that model as Markdown, AsciiDoc, YAML or JSON.
use vstd::prelude::*;

pub mod ast;
pub mod diff;
pub mod exports;
pub mod localization;
pub mod ordered_map;
pub mod parsing;
pub mod text;

pub use parsing::{BicepDocument, BicepParserError, BicepType, BicepValue};

use parsing::checks::check_document;
use parsing::document::{document_model, document_ok, DocumentView};
use parsing::syntax::{bicep_syntax, parse_syntax_tree, read_from, syntax_view, SyntaxNode};

verus! {

/// Parses Bicep source text into its syntax tree with the tree-sitter Bicep
/// grammar, each node's text read from the source by its byte range; `None`
/// where the grammar cannot be loaded or the parser gives up.
pub fn parse_bicep_file(content: &str) -> (r: Option<SyntaxNode>)
    ensures
        match bicep_syntax(content@) {
            Some(v) => r matches Some(t) && syntax_view(t) == v && read_from(t, content@),
            None => r is None,
        },
{
    match parse_syntax_tree(content) {
        Ok(t) => Some(t),
        Err(_) => None,
    }
}

/// Reads a document from a syntax tree: the document that
/// `parsing::parse_bicep_document` reads where every declaration can be read
/// without failing (`document_ok`), an error otherwise.
pub fn parse_bicep_syntax_tree(tree: &SyntaxNode) -> (r: Result<BicepDocument, BicepParserError>)
    ensures
        document_ok(*tree) ==> (r matches Ok(d) && d@ == document_model(*tree)),
        !document_ok(*tree) ==> (r matches Err(e) && e is ParseError),
{
    if !check_document(tree) {
        return Err(
            BicepParserError::ParseError(
                "The syntax tree has a declaration that cannot be read".to_string(),
            ),
        );
    }
    parsing::parse_bicep_document(tree)
}

/// Parses Bicep source text into a document: `parse_bicep_syntax_tree` of
/// the tree that the tree-sitter Bicep grammar gives; an error where the
/// grammar gives none.
pub fn parse_bicep_document(source_code: &str) -> (r: Result<BicepDocument, BicepParserError>)
    ensures
        r matches Ok(d) ==> exists|t: SyntaxNode|
            #![trigger syntax_view(t)]
            Some(syntax_view(t)) == bicep_syntax(source_code@) && document_ok(t) && d@
                == document_model(t),
        r matches Err(e) ==> e is ParseError,
        r is Err ==> (bicep_syntax(source_code@) is None || exists|t: SyntaxNode|
            #![trigger syntax_view(t)]
            Some(syntax_view(t)) == bicep_syntax(source_code@) && !document_ok(t)),
        (bicep_syntax(source_code@) matches Some(v) && forall|t: SyntaxNode|
            #![trigger syntax_view(t)]
            syntax_view(t) == v ==> document_ok(t)) ==> r is Ok,
{
    let tree = match parse_bicep_file(source_code) {
        Some(t) => t,
        None => {
            return Err(BicepParserError::ParseError("Failed to parse Bicep file".to_string()));
        },
    };
    parse_bicep_syntax_tree(&tree)
}

/// The document as Markdown text: `exports::markdown::export_to_string`.
pub fn export_bicep_document_to_markdown_string(
    document: &BicepDocument,
    use_emoji: bool,
    exclude_empty: bool,
) -> (r: String)
    ensures
        r@ == exports::markdown::md_document(*document, use_emoji, exclude_empty),
{
    exports::markdown::export_to_string(document, use_emoji, exclude_empty)
}

/// The document as AsciiDoc text: `exports::asciidoc::export_to_string`. The
/// AsciiDoc exporter writes every section, so `exclude_empty` changes nothing.
pub fn export_bicep_document_to_asciidoc_string(
    document: &BicepDocument,
    use_emoji: bool,
    exclude_empty: bool,
) -> (r: String)
    ensures
        r@ == exports::asciidoc::adoc_document(*document, use_emoji),
{
    exports::asciidoc::export_to_string(document, use_emoji)
}

} // verus!
