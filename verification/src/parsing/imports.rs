//! Import statements: namespace imports (`import 'az@1.0.0'`) and module
//! imports (`import {a, b as c} from './x.bicep'`, `import * as m from ...`).
use vstd::prelude::*;

use super::modules::{module_source_model, source_slicing_fails, ModuleSource, SourceModel};
use super::syntax::{kind_is, SyntaxNode};
use super::values::{first_child_of_kind, first_kind_from, has_kind, lemma_first_kind_from};
use super::{str_view, BicepParserError};
use crate::text::{
    chars_of, find_char, lemma_find_char, slice_chars, spec_find, spec_trim_char, string_of,
    trim_char,
};

verus! {

/// An import statement.
#[derive(Debug)]
pub enum BicepImport {
    /// A namespace import, such as `import 'az@1.0.0'`
    Namespace {
        /// The namespace
        namespace: String,
        /// The version after `@`, if any
        version: Option<String>,
    },
    /// A module import
    Module {
        /// Where the module comes from
        source: ModuleSource,
        /// The imported symbols, if a list was given
        symbols: Option<Vec<BicepImportSymbol>>,
        /// The alias of a wildcard import
        wildcard_alias: Option<String>,
    },
}

/// A symbol imported from a module, with its alias.
#[derive(Debug)]
pub struct BicepImportSymbol {
    /// The symbol's name
    pub name: String,
    /// Its alias (`as`), if any
    pub alias: Option<String>,
}

pub struct SymbolView {
    pub name: Seq<char>,
    pub alias: Option<Seq<char>>,
}

impl View for BicepImportSymbol {
    type V = SymbolView;

    open spec fn view(&self) -> SymbolView {
        SymbolView { name: self.name@, alias: str_view(self.alias) }
    }
}

pub open spec fn symbols_view(s: Seq<BicepImportSymbol>) -> Seq<SymbolView> {
    Seq::new(s.len(), |i: int| s[i]@)
}

pub enum ImportView {
    Namespace { namespace: Seq<char>, version: Option<Seq<char>> },
    Module {
        source: SourceModel,
        symbols: Option<Seq<SymbolView>>,
        wildcard_alias: Option<Seq<char>>,
    },
}

impl View for BicepImport {
    type V = ImportView;

    open spec fn view(&self) -> ImportView {
        match *self {
            BicepImport::Namespace { namespace, version } => ImportView::Namespace {
                namespace: namespace@,
                version: str_view(version),
            },
            BicepImport::Module { source, symbols, wildcard_alias } => ImportView::Module {
                source: source@,
                symbols: match symbols {
                    Some(v) => Some(symbols_view(v@)),
                    None => None,
                },
                wildcard_alias: str_view(wildcard_alias),
            },
        }
    }
}

// ---------------------------------------------------------------
// Models
// ---------------------------------------------------------------

/// A quoted text without its quotes (`'` then `"` trimmed from both ends).
pub open spec fn unquoted(t: Seq<char>) -> Seq<char> {
    spec_trim_char(spec_trim_char(t, '\''), '"')
}

/// The namespace import a statement describes; `None` where it has no string,
/// an empty string, or an empty namespace before `@`.
pub open spec fn namespace_import_model(n: SyntaxNode) -> Option<ImportView> {
    match first_kind_from(n.children@, "string"@, 0) {
        Some(i) => {
            let clean = unquoted(n.children@[i].text@);
            if clean.len() == 0 {
                None
            } else {
                match spec_find(clean, seq!['@']) {
                    Some(k) => if k == 0 {
                        None
                    } else {
                        Some(
                            ImportView::Namespace {
                                namespace: clean.subrange(0, k),
                                version: Some(clean.subrange(k + 1, clean.len() as int)),
                            },
                        )
                    },
                    None => Some(ImportView::Namespace { namespace: clean, version: None }),
                }
            }
        },
        None => None,
    }
}

/// The position of the first `from` followed by a string, from child `i` on.
pub open spec fn from_index(cs: Seq<SyntaxNode>, i: int) -> Option<int>
    decreases cs.len() - i,
{
    if i < 0 || i >= cs.len() {
        None
    } else if kind_is(cs[i], "from"@) && i + 1 < cs.len() && kind_is(cs[i + 1], "string"@) {
        Some(i)
    } else {
        from_index(cs, i + 1)
    }
}

/// The source path of a module import.
pub open spec fn import_path(cs: Seq<SyntaxNode>) -> Option<Seq<char>> {
    match from_index(cs, 0) {
        Some(i) => if 0 <= i && i + 1 < cs.len() {
            Some(unquoted(cs[i + 1].text@))
        } else {
            None
        },
        None => None,
    }
}

/// The position of the first `*` or `{`, from child `i` on.
pub open spec fn spec_index(cs: Seq<SyntaxNode>, i: int) -> Option<int>
    decreases cs.len() - i,
{
    if i < 0 || i >= cs.len() {
        None
    } else if kind_is(cs[i], "*"@) || kind_is(cs[i], "{"@) {
        Some(i)
    } else {
        spec_index(cs, i + 1)
    }
}

/// The symbols of a list, from child `j` to the closing `}`.
pub open spec fn symbol_scan(cs: Seq<SyntaxNode>, j: int, acc: Seq<SymbolView>) -> Seq<SymbolView>
    decreases cs.len() - j,
{
    if j < 0 || j >= cs.len() || kind_is(cs[j], "}"@) {
        acc
    } else if kind_is(cs[j], "identifier"@) {
        if j + 2 < cs.len() && kind_is(cs[j + 1], "as"@) && kind_is(cs[j + 2], "identifier"@) {
            symbol_scan(
                cs,
                j + 3,
                acc.push(SymbolView { name: cs[j].text@, alias: Some(cs[j + 2].text@) }),
            )
        } else {
            symbol_scan(cs, j + 1, acc.push(SymbolView { name: cs[j].text@, alias: None }))
        }
    } else {
        symbol_scan(cs, j + 1, acc)
    }
}

/// The imported symbols and the wildcard alias.
pub open spec fn specifiers(cs: Seq<SyntaxNode>) -> (Seq<SymbolView>, Option<Seq<char>>) {
    match spec_index(cs, 0) {
        Some(i) => if kind_is(cs[i], "*"@) {
            (
                Seq::empty(),
                if i + 2 < cs.len() && kind_is(cs[i + 1], "as"@) && kind_is(
                    cs[i + 2],
                    "identifier"@,
                ) {
                    Some(cs[i + 2].text@)
                } else {
                    None
                },
            )
        } else {
            (symbol_scan(cs, i + 1, Seq::empty()), None)
        },
        None => (Seq::empty(), None),
    }
}

/// The module import a statement describes; `None` where it has no non-empty
/// source path. A source that is not a registry or template-spec reference is
/// a local path.
pub open spec fn module_import_model(n: SyntaxNode) -> Option<ImportView> {
    match import_path(n.children@) {
        Some(p) => if p.len() == 0 {
            None
        } else {
            let (syms, wild) = specifiers(n.children@);
            Some(
                ImportView::Module {
                    source: match module_source_model(p) {
                        Ok(m) => m,
                        Err(_) => SourceModel::LocalPath(p),
                    },
                    symbols: if syms.len() == 0 {
                        None
                    } else {
                        Some(syms)
                    },
                    wildcard_alias: wild,
                },
            )
        },
        None => None,
    }
}

// ---------------------------------------------------------------
// Executable
// ---------------------------------------------------------------

fn unquoted_exec(t: &str) -> (r: Vec<char>)
    ensures
        r@ == unquoted(t@),
{
    let v = chars_of(t);
    let a = trim_char(v.as_slice(), '\'');
    trim_char(a.as_slice(), '"')
}

/// Parses a namespace import.
pub fn parse_namespace_import(node: &SyntaxNode) -> (r: Result<BicepImport, BicepParserError>)
    ensures
        match namespace_import_model(*node) {
            Some(m) => r matches Ok(x) && x@ == m,
            None => r matches Err(e) && e is ParseError,
        },
{
    match first_child_of_kind(node, "string") {
        Some(i) => {
            proof {
                lemma_first_kind_from(node.children@, "string"@, 0);
            }
            let clean = unquoted_exec(node.children[i].text.as_str());
            if clean.len() == 0 {
                return Err(
                    BicepParserError::ParseError("Namespace import has empty string".to_string()),
                );
            }
            match find_char(clean.as_slice(), '@') {
                Some(k) => {
                    proof {
                        lemma_find_char(clean@, '@');
                    }
                    if k == 0 {
                        return Err(
                            BicepParserError::ParseError(
                                "Namespace import has empty namespace".to_string(),
                            ),
                        );
                    }
                    let ns = slice_chars(clean.as_slice(), 0, k);
                    let ver = slice_chars(clean.as_slice(), k + 1, clean.len());
                    Ok(
                        BicepImport::Namespace {
                            namespace: string_of(ns.as_slice()),
                            version: Some(string_of(ver.as_slice())),
                        },
                    )
                },
                None => Ok(
                    BicepImport::Namespace { namespace: string_of(clean.as_slice()), version: None },
                ),
            }
        },
        None => Err(
            BicepParserError::ParseError(
                "Could not extract namespace from import statement".to_string(),
            ),
        ),
    }
}

/// The source path of a module import.
fn extract_import_source_path(cs: &Vec<SyntaxNode>) -> (r: Result<Vec<char>, BicepParserError>)
    ensures
        match import_path(cs@) {
            Some(p) => if p.len() == 0 {
                r matches Err(e) && e is ParseError
            } else {
                r matches Ok(v) && v@ == p
            },
            None => r matches Err(e) && e is ParseError,
        },
{
    let mut i: usize = 0;
    while i < cs.len()
        invariant
            i <= cs@.len(),
            from_index(cs@, 0) == from_index(cs@, i as int),
        decreases cs@.len() - i,
    {
        if has_kind(&cs[i], "from") && i + 1 < cs.len() && has_kind(&cs[i + 1], "string") {
            let clean = unquoted_exec(cs[i + 1].text.as_str());
            if clean.len() == 0 {
                return Err(
                    BicepParserError::ParseError("Module import has empty source path".to_string()),
                );
            }
            return Ok(clean);
        }
        i = i + 1;
    }
    Err(BicepParserError::ParseError("Could not find source path in module import".to_string()))
}

/// The alias after a `*` at `wildcard_index`: the identifier of `* as alias`.
fn extract_wildcard_alias(cs: &Vec<SyntaxNode>, wildcard_index: usize) -> (r: Option<String>)
    requires
        wildcard_index < cs@.len(),
    ensures
        str_view(r) == (if wildcard_index + 2 < cs@.len() && kind_is(
            cs@[wildcard_index + 1],
            "as"@,
        ) && kind_is(cs@[wildcard_index + 2], "identifier"@) {
            Some(cs@[wildcard_index + 2].text@)
        } else {
            None
        }),
{
    if cs.len() > 2 && wildcard_index < cs.len() - 2 && has_kind(&cs[wildcard_index + 1], "as") && has_kind(
        &cs[wildcard_index + 2],
        "identifier",
    ) {
        Some(cs[wildcard_index + 2].text.clone())
    } else {
        None
    }
}

/// The symbol that starts at the identifier `start_index`, with its alias
/// where `as alias` follows, and the position after it.
fn parse_import_symbol(cs: &Vec<SyntaxNode>, start_index: usize) -> (r: (
    BicepImportSymbol,
    usize,
))
    requires
        start_index < cs@.len(),
    ensures
        if start_index + 2 < cs@.len() && kind_is(cs@[start_index + 1], "as"@) && kind_is(
            cs@[start_index + 2],
            "identifier"@,
        ) {
            r.0@ == (SymbolView {
                name: cs@[start_index as int].text@,
                alias: Some(cs@[start_index + 2].text@),
            }) && r.1 == start_index + 3
        } else {
            r.0@ == (SymbolView { name: cs@[start_index as int].text@, alias: None }) && r.1
                == start_index + 1
        },
{
    let symbol_name = cs[start_index].text.clone();
    if cs.len() > 2 && start_index < cs.len() - 2 && has_kind(&cs[start_index + 1], "as") && has_kind(
        &cs[start_index + 2],
        "identifier",
    ) {
        let alias_name = cs[start_index + 2].text.clone();
        (BicepImportSymbol { name: symbol_name, alias: Some(alias_name) }, start_index + 3)
    } else {
        (BicepImportSymbol { name: symbol_name, alias: None }, start_index + 1)
    }
}

/// The symbols of the list that opens with the `{` at `brace_index`.
fn parse_symbol_list(cs: &Vec<SyntaxNode>, brace_index: usize) -> (r: Vec<BicepImportSymbol>)
    requires
        brace_index < cs@.len(),
    ensures
        symbols_view(r@) == symbol_scan(cs@, brace_index + 1, Seq::empty()),
{
    let mut syms: Vec<BicepImportSymbol> = Vec::new();
    let n = cs.len();
    let mut j: usize = brace_index + 1;
    assert(symbols_view(syms@) =~= Seq::empty());
    while j < cs.len() && !has_kind(&cs[j], "}")
        invariant
            brace_index < j <= cs@.len(),
            symbol_scan(cs@, brace_index + 1, Seq::empty()) == symbol_scan(
                cs@,
                j as int,
                symbols_view(syms@),
            ),
        decreases cs@.len() - j,
    {
        if has_kind(&cs[j], "identifier") {
            let ghost before = syms@;
            let (s, next) = parse_import_symbol(cs, j);
            syms.push(s);
            assert(symbols_view(syms@) =~= symbols_view(before).push(s@));
            j = next;
        } else {
            j = j + 1;
        }
    }
    syms
}

/// The imported symbols and the wildcard alias.
fn parse_import_specifiers(cs: &Vec<SyntaxNode>) -> (r: (Vec<BicepImportSymbol>, Option<String>))
    ensures
        (symbols_view(r.0@), str_view(r.1)) == specifiers(cs@),
{
    let mut i: usize = 0;
    while i < cs.len()
        invariant
            i <= cs@.len(),
            spec_index(cs@, 0) == spec_index(cs@, i as int),
        decreases cs@.len() - i,
    {
        if has_kind(&cs[i], "*") {
            let alias = extract_wildcard_alias(cs, i);
            let v: Vec<BicepImportSymbol> = Vec::new();
            assert(symbols_view(v@) =~= Seq::empty());
            return (v, alias);
        }
        if has_kind(&cs[i], "{") {
            return (parse_symbol_list(cs, i), None);
        }
        i = i + 1;
    }
    let v: Vec<BicepImportSymbol> = Vec::new();
    assert(symbols_view(v@) =~= Seq::empty());
    (v, None)
}

/// Parses a module import.
pub fn parse_module_import(node: &SyntaxNode) -> (r: Result<BicepImport, BicepParserError>)
    ensures
        match module_import_model(*node) {
            Some(m) => r matches Ok(x) && x@ == m,
            None => r matches Err(e) && e is ParseError,
        },
{
    let path = extract_import_source_path(&node.children)?;
    let (symbols, wildcard_alias) = parse_import_specifiers(&node.children);
    let ps = string_of(path.as_slice());
    let source = match ModuleSource::parse(ps.as_str()) {
        Ok(m) => m,
        Err(_) => ModuleSource::LocalPath(ps),
    };
    let symbols = if symbols.len() == 0 {
        None
    } else {
        Some(symbols)
    };
    Ok(BicepImport::Module { source, symbols, wildcard_alias })
}

} // verus!
